use suvarix::health::protection;

#[test]
fn protection_counts_each_cover_half() {
    let both = protection(true, true);
    assert_eq!(both.score, 100);
    assert_eq!(both.status, "Life and health insurance in place");
    assert_eq!(both.top_fix, "");
    let life = protection(true, false);
    assert_eq!(life.score, 50);
    assert_eq!(life.top_fix, "Add a health insurance policy to protect against medical shocks");
    let health = protection(false, true);
    assert_eq!(health.status, "Health cover present, life cover missing");
    assert_eq!(health.top_fix, "Add life/term cover if anyone depends on your income");
    let none = protection(false, false);
    assert_eq!(none.score, 0);
    assert_eq!(none.top_fix, "Add a health insurance policy to protect against medical shocks");
}
