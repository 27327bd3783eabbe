use minigrep::Cacher;

#[test]
fn test_cacher() {
    let mut cacher = Cacher::new(|x| x + 1);
    assert_eq!(cacher.value(0), 1);
    assert_eq!(cacher.value(0), 1);
    assert_eq!(cacher.value(1), 1);
}

#[test]
fn test_cacher_string() {
    let mut cacher = Cacher::new(|x: String| String::from("Hello ") + &x);
    assert_eq!(cacher.value(String::from("world")), "Hello world");
    assert_eq!(cacher.value(String::from("world second time")), "Hello world");
}

#[test]
fn cacher_runs_query_only_once() {
    let calls = std::cell::Cell::new(0);
    let mut cacher = Cacher::new(|x: u64| {
        calls.set(calls.get() + 1);
        x * 10
    });
    assert_eq!(cacher.value(7), 70);
    assert_eq!(cacher.value(8), 70);
    assert_eq!(cacher.value(9), 70);
    assert_eq!(calls.get(), 1);
}

#[derive(Debug, PartialEq)]
struct Generation(u32);

impl Clone for Generation {
    fn clone(&self) -> Self {
        Generation(self.0 + 1)
    }
}

#[test]
fn cacher_keeps_and_returns_clones() {
    let mut cacher = Cacher::new(|_: Generation| Generation(0));
    // The query's result is cloned once to keep and once to return.
    assert_eq!(cacher.value(Generation(7)), Generation(1));
    // Later calls return a clone of the kept clone.
    assert_eq!(cacher.value(Generation(8)), Generation(2));
    assert_eq!(cacher.value(Generation(9)), Generation(2));
}
