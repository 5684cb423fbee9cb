use clean_links::redirect::follow_redirect;

#[test]
fn only_the_first_redirect_is_followed() {
    assert!(follow_redirect(1));
    assert!(!follow_redirect(2));
    assert!(!follow_redirect(3));
    assert!(!follow_redirect(usize::MAX));
}

#[test]
fn two_hop_chain_ends_on_the_first_target() {
    let chain = ["https://s.example/a", "https://first.example/", "https://final.example/"];
    let mut visited = vec![chain[0]];
    while visited.len() < chain.len() && follow_redirect(visited.len()) {
        visited.push(chain[visited.len()]);
    }
    assert_eq!(Some(&"https://first.example/"), visited.last());
}
