use mailroom::orchestrator::parser::extract_address;

#[test]
fn extract_address_with_name() {
// Testing the parser directly since it's used by the router
let input = "Tim Porter <tim@sacred.vote>";
let addr = extract_address(input);
assert_eq!(addr, "tim@sacred.vote");
}

#[test]
fn extract_address_bare() {
let addr = extract_address("admin@sacred.vote");
assert_eq!(addr, "admin@sacred.vote");
}

#[test]
fn extract_address_angle_only() {
let addr = extract_address("<noreply@sacred.vote>");
assert_eq!(addr, "noreply@sacred.vote");
}
