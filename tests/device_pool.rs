use rablet::config::Config;
use rablet::{find_descriptor, new_global_state, plan_scan, DeviceID, DeviceInfo, ScanEntry};

fn info(vid: u16, pid: u16, width: u32) -> DeviceInfo {
    DeviceInfo {
        id: DeviceID { vid, pid },
        height: 100,
        width,
        button_available: Vec::new(),
        wheel: false,
        packet_length: 12,
    }
}

const A: DeviceID = DeviceID { vid: 0x256c, pid: 0x006d };
const B: DeviceID = DeviceID { vid: 0x28bd, pid: 0x0094 };
const C: DeviceID = DeviceID { vid: 0x046d, pid: 0xc52b };

#[test]
fn only_known_devices_are_matched() {
    let db = vec![info(A.vid, A.pid, 10), info(B.vid, B.pid, 20)];
    let plan = plan_scan(&db, &vec![Some(B), Some(C)]);
    assert_eq!(plan, vec![ScanEntry { device: 0, descriptor: 1 }]);

    let mut state = new_global_state(Config::new_default(), db);
    let readers = state.claim_opened(&plan, &vec![true]);
    assert_eq!(readers.len(), 1);
    assert_eq!(readers[0].id(), B);
    assert_eq!(state.devices, vec![ScanEntry { device: 0, descriptor: 1 }]);
}

#[test]
fn failed_open_does_not_stop_the_scan() {
    let db = vec![info(A.vid, A.pid, 10), info(B.vid, B.pid, 20)];
    let attached = vec![Some(A), None, Some(C), Some(B)];
    let plan = plan_scan(&db, &attached);
    assert_eq!(
        plan,
        vec![ScanEntry { device: 0, descriptor: 0 }, ScanEntry { device: 3, descriptor: 1 }]
    );
    let mut state = new_global_state(Config::new_default(), db);
    let readers = state.claim_opened(&plan, &vec![false, true]);
    assert_eq!(readers.len(), 1);
    assert_eq!(readers[0].id(), B);
    assert_eq!(state.devices, vec![ScanEntry { device: 3, descriptor: 1 }]);
}

#[test]
fn first_descriptor_wins() {
    let db = vec![info(C.vid, C.pid, 1), info(A.vid, A.pid, 2), info(A.vid, A.pid, 3)];
    assert_eq!(find_descriptor(&db, A), Some(1));
    assert_eq!(find_descriptor(&db, B), None);
    assert_eq!(find_descriptor(&Vec::new(), A), None);
}

#[test]
fn fresh_registry_is_empty() {
    let state = new_global_state(Config::new_default(), vec![info(A.vid, A.pid, 1)]);
    assert!(state.devices.is_empty());
    assert_eq!(state.device_db.len(), 1);
    assert_eq!(state.config, Config {});
}
