use serial_bridge::bridge::{opened_ok, read_outcome, write_outcome, SerialState};
use serial_bridge::config::{DataBits, FlowControl, Parity, StopBits};

#[test]
fn default_config_is_8n1_no_flow() {
    let st = SerialState::<u32>::new();
    let cfg = st.get_serial_port_config();
    assert_eq!(cfg.data_bits, 8);
    assert_eq!(cfg.stop_bits, 1);
    assert_eq!(cfg.parity, "None");
    assert_eq!(cfg.flow_control, "None");
    assert!(cfg.is_valid());
}

#[test]
fn set_then_get_config_round_trip() {
    let mut st = SerialState::<u32>::new();
    st.set_serial_port_config(7, 2, "Even".to_string(), "Hardware".to_string());
    let cfg = st.get_serial_port_config();
    assert_eq!(cfg.data_bits, 7);
    assert_eq!(cfg.stop_bits, 2);
    assert_eq!(cfg.parity, "Even");
    assert_eq!(cfg.flow_control, "Hardware");
}

#[test]
fn config_change_does_not_affect_open_ports() {
    let mut st = SerialState::<u32>::new();
    let r = st.open_serial_port_finish("COM1".to_string(), Ok(5));
    assert_eq!(r, Ok("Opened".to_string()));
    st.set_serial_port_config(5, 2, "Odd".to_string(), "Software".to_string());
    assert!(st.is_serial_port_open("COM1"));
    assert_eq!(st.stop_serial_port("COM1"), Some(5));
}

#[test]
fn open_plan_carries_config_baud_and_timeout() {
    let st = SerialState::<u32>::new();
    let plan = st.open_serial_port_plan("COM3", 9600).expect("port is not open yet");
    assert_eq!(plan.baud_rate, 9600);
    assert_eq!(plan.data_bits, DataBits::Eight);
    assert_eq!(plan.stop_bits, StopBits::One);
    assert_eq!(plan.parity, Parity::NoParity);
    assert_eq!(plan.flow_control, FlowControl::NoFlowControl);
    assert_eq!(plan.timeout_ms, 200);
}

#[test]
fn opening_an_open_port_is_idempotent() {
    let mut st = SerialState::<u32>::new();
    assert_eq!(
        st.open_serial_port_finish("COM1".to_string(), Ok(7)),
        Ok("Opened".to_string())
    );
    // A second open request plans no driver call and changes nothing.
    assert!(st.open_serial_port_plan("COM1", 9600).is_none());
    assert!(st.is_serial_port_open("COM1"));
    assert_eq!(st.stop_serial_port("COM1"), Some(7));
}

#[test]
fn open_failure_reports_driver_error_and_opens_nothing() {
    let mut st = SerialState::<u32>::new();
    let r = st.open_serial_port_finish("COM1".to_string(), Err("device busy".to_string()));
    assert_eq!(r, Err("device busy".to_string()));
    assert!(!st.is_serial_port_open("COM1"));
}

#[test]
fn closing_a_non_open_port_is_a_noop() {
    let mut st = SerialState::<u32>::new();
    st.open_serial_port_finish("COM1".to_string(), Ok(1)).unwrap();
    assert_eq!(st.stop_serial_port("COM2"), None);
    assert!(st.is_serial_port_open("COM1"));
    assert!(!st.is_serial_port_open("COM2"));
}

#[test]
fn is_open_reflects_registry_membership_exactly() {
    let mut st = SerialState::<u32>::new();
    assert!(!st.is_serial_port_open("COM1"));
    st.open_serial_port_finish("COM1".to_string(), Ok(1)).unwrap();
    assert!(st.is_serial_port_open("COM1"));
    assert!(!st.is_serial_port_open("COM2"));
    st.stop_serial_port("COM1");
    assert!(!st.is_serial_port_open("COM1"));
}

#[test]
fn write_to_non_open_port_is_false() {
    assert!(!write_outcome(false, None));
    assert!(!write_outcome(false, Some(4)));
}

#[test]
fn write_succeeds_only_when_open_and_accepted() {
    assert!(!write_outcome(true, None));
    assert!(write_outcome(true, Some(4)));
}

#[test]
fn read_from_non_open_port_is_empty() {
    assert_eq!(read_outcome(false, vec![1, 2, 3], Some(2)), Vec::<u8>::new());
}

#[test]
fn read_failure_is_empty() {
    assert_eq!(read_outcome(true, vec![1, 2, 3], None), Vec::<u8>::new());
}

#[test]
fn read_returns_the_bytes_the_driver_put() {
    assert_eq!(read_outcome(true, vec![10, 20, 30, 0], Some(3)), vec![10, 20, 30]);
    assert_eq!(read_outcome(true, vec![10, 20], Some(0)), Vec::<u8>::new());
}

#[test]
fn opened_ok_answers_opened() {
    assert_eq!(opened_ok(), Ok("Opened".to_string()));
}
