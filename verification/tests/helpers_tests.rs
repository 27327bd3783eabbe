use std::collections::HashMap;

use minigrep::closures::factory;
use minigrep::http::status_line;
use minigrep::lookup::get_default;

#[test]
fn factory_adds_or_subtracts_five() {
    let add = factory(2);
    assert_eq!(add(1), 6);
    assert_eq!(add(-10), -5);
    let sub = factory(1);
    assert_eq!(sub(1), -4);
    let sub = factory(-7);
    assert_eq!(sub(100), 95);
}

#[test]
fn get_default_inserts_once() {
    let mut counts: HashMap<String, u32> = HashMap::new();
    *get_default(&mut counts, "a".to_string()) += 1;
    *get_default(&mut counts, "a".to_string()) += 1;
    *get_default(&mut counts, "b".to_string()) += 5;
    assert_eq!(counts.get("a"), Some(&2));
    assert_eq!(counts.get("b"), Some(&5));
    assert_eq!(counts.len(), 2);
    assert_eq!(*get_default(&mut counts, "c".to_string()), 0);
    assert_eq!(counts.len(), 3);
}

#[test]
fn split_at_mut_parts_write_through() {
    let mut v = vec![1, 2, 3, 4, 5, 6];
    {
        let (part1, part2) = minigrep::slices::split_at_mut(&mut v[..], 3);
        assert_eq!(part1, &[1, 2, 3]);
        assert_eq!(part2, &[4, 5, 6]);
        part1[0] = 10;
        part2[2] = 60;
    }
    assert_eq!(v, vec![10, 2, 3, 4, 5, 60]);
    let (a, b) = minigrep::slices::split_at_mut(&mut v[..], 0);
    assert!(a.is_empty());
    assert_eq!(b.len(), 6);
}

#[test]
fn status_line_for_requests() {
    assert_eq!(status_line(b"GET / HTTP/1.1\r\nHost: x\r\n\r\n"), "HTTP/1.1 200 OK\r\n\r\n");
    assert_eq!(status_line(b"GET / HTTP/1.1\r\n"), "HTTP/1.1 200 OK\r\n\r\n");
    assert_eq!(status_line(b"GET /sleep HTTP/1.1\r\n"), "HTTP/1.1 404 NOT FOUND\r\n\r\n");
    assert_eq!(status_line(b"GET / HTTP/1.1"), "HTTP/1.1 404 NOT FOUND\r\n\r\n");
    assert_eq!(status_line(&[0u8; 1024]), "HTTP/1.1 404 NOT FOUND\r\n\r\n");
}
