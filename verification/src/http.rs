use vstd::prelude::*;

verus! {

/// The bytes of the request line `GET / HTTP/1.1\r\n`.
pub open spec fn get_root_request() -> Seq<u8> {
    seq![71u8, 69, 84, 32, 47, 32, 72, 84, 84, 80, 47, 49, 46, 49, 13, 10]
}

/// The status line that answers a request for the root page.
pub open spec fn status_ok() -> &'static str {
    "HTTP/1.1 200 OK\r\n\r\n"
}

/// The status line that answers any other request.
pub open spec fn status_not_found() -> &'static str {
    "HTTP/1.1 404 NOT FOUND\r\n\r\n"
}

/// The status line for a request whose first bytes are `request`: `200 OK`
/// when it starts with `GET / HTTP/1.1\r\n`, else `404 NOT FOUND`.
pub fn status_line(request: &[u8]) -> (r: &'static str)
    ensures
        r == (if get_root_request().is_prefix_of(request@) {
            status_ok()
        } else {
            status_not_found()
        }),
{
    let get: [u8; 16] = [71, 69, 84, 32, 47, 32, 72, 84, 84, 80, 47, 49, 46, 49, 13, 10];
    assert(get@ =~= get_root_request());
    if request.len() < 16 {
        return "HTTP/1.1 404 NOT FOUND\r\n\r\n";
    }
    let mut i: usize = 0;
    while i < 16
        invariant
            get@ == get_root_request(),
            16 <= request@.len(),
            i <= 16,
            forall|k: int| 0 <= k < i ==> request@[k] == get@[k],
        decreases 16 - i,
    {
        if request[i] != get[i] {
            return "HTTP/1.1 404 NOT FOUND\r\n\r\n";
        }
        i += 1;
    }
    "HTTP/1.1 200 OK\r\n\r\n"
}

} // verus!
