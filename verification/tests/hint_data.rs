use cairo_vm_core::hint_processor::{ApTracking, HintData};
use std::collections::HashMap;

#[test]
fn hint_data_keeps_what_it_is_given() {
    let ids = HashMap::from([(String::from("n"), 3usize)]);
    let data = HintData::new("memory[ap] = ids.n", ids, ApTracking { group: 1, offset: 2 });
    assert_eq!(data.hint_code, "memory[ap] = ids.n");
    assert_eq!(data.ids.get("n"), Some(&3));
    assert_eq!(data.ap_tracking_data, ApTracking { group: 1, offset: 2 });
}
