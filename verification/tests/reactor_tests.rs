use commitlog::Reactor;

#[test]
fn allocate_reactor_numbers_the_context() {
    let mut seen = None;
    Reactor::allocate_reactor(5, |r: &Reactor| {
        seen = Some((r.id, r.val));
    });
    assert_eq!(seen, Some((5, 6)));
}

#[test]
fn with_runs_the_closure_on_the_given_context() {
    let r = Reactor { id: 2, val: 3 };
    let doubled = r.with(|re: &Reactor| re.val * 2);
    assert_eq!(doubled, 6);
}
