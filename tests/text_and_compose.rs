use a11ywatch_cli::compose::{generate_compose_backend, generate_compose_frontend};
use a11ywatch_cli::env::make_assignment;
use a11ywatch_cli::text::{text_contains, text_starts_with};

#[test]
fn starts_with_and_contains() {
    assert!(text_starts_with("CRAWLER_IMAGE=x", "CRAWLER_IMAGE="));
    assert!(!text_starts_with("CRAWLER_IMAGE", "CRAWLER_IMAGE="));
    assert!(!text_starts_with(" CRAWLER_IMAGE=x", "CRAWLER_IMAGE="));
    assert!(text_contains("export COMPUTER_VISION_ENDPOINT=1", "COMPUTER_VISION_ENDPOINT"));
    assert!(!text_contains("COMPUTER_VISION", "COMPUTER_VISION_ENDPOINT"));
    assert!(text_contains("abc", ""));
    assert!(text_contains("héllo wörld", "wör"));
}

#[test]
fn assignment_line() {
    assert_eq!(make_assignment("KEY", "v=1"), "KEY=v=1");
}

#[test]
fn compose_descriptors() {
    assert!(generate_compose_backend().contains("image: a11ywatch/a11ywatch-core"));
    assert!(generate_compose_frontend().contains("image: a11ywatch/web"));
}
