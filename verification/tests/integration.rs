/// Checks that the integration test runner compiles and runs.
#[test]
fn integration_test_runner_works() {
    println!("Integration test runner initialized.");
    println!("All visual integration test modules are available:");
    println!("  - movement (WASD controls)");
    println!("  - jump (jump physics)");
    println!("  - box_interaction (dynamic boxes)");
    println!("  - movement_video (WASD movement with video recording)");
}
