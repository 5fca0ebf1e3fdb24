use std::time::Duration;

use workspace_atlas::context_route::duration_micros;

#[test]
fn attempt_duration_conversion_saturates_at_the_wire_limit() {
    assert_eq!(duration_micros(Duration::MAX), u64::MAX);
}
