use serial_bridge::config::{
    convert_to_data_bits, convert_to_flow_control, convert_to_parity, convert_to_stop_bits,
    DataBits, FlowControl, Parity, SerialPortConfig, StopBits,
};
use serial_bridge::registry::PortRegistry;

#[test]
fn convert_data_bits_exact() {
    assert_eq!(convert_to_data_bits(5), DataBits::Five);
    assert_eq!(convert_to_data_bits(6), DataBits::Six);
    assert_eq!(convert_to_data_bits(7), DataBits::Seven);
    assert_eq!(convert_to_data_bits(8), DataBits::Eight);
}

#[test]
fn convert_stop_bits_exact() {
    assert_eq!(convert_to_stop_bits(1), StopBits::One);
    assert_eq!(convert_to_stop_bits(2), StopBits::Two);
}

#[test]
fn convert_parity_exact() {
    assert_eq!(convert_to_parity("None"), Parity::NoParity);
    assert_eq!(convert_to_parity("Odd"), Parity::Odd);
    assert_eq!(convert_to_parity("Even"), Parity::Even);
}

#[test]
fn convert_flow_control_exact() {
    assert_eq!(convert_to_flow_control("None"), FlowControl::NoFlowControl);
    assert_eq!(convert_to_flow_control("Software"), FlowControl::Software);
    assert_eq!(convert_to_flow_control("Hardware"), FlowControl::Hardware);
}

fn config(data_bits: i8, stop_bits: i8, parity: &str, flow_control: &str) -> SerialPortConfig {
    SerialPortConfig {
        data_bits,
        stop_bits,
        parity: parity.to_string(),
        flow_control: flow_control.to_string(),
    }
}

#[test]
fn validity_checks_each_field() {
    assert!(config(8, 1, "None", "None").is_valid());
    assert!(config(5, 2, "Even", "Hardware").is_valid());
    assert!(!config(9, 1, "None", "None").is_valid());
    assert!(!config(8, 3, "None", "None").is_valid());
    assert!(!config(8, 1, "none", "None").is_valid());
    assert!(!config(8, 1, "None", "Full").is_valid());
}

#[test]
fn registry_insert_remove_lookup() {
    let mut reg: PortRegistry<u32> = PortRegistry::new();
    assert!(!reg.is_open("a"));
    reg.insert("a".to_string(), 1);
    reg.insert("b".to_string(), 2);
    assert!(reg.is_open("a"));
    assert!(reg.is_open("b"));
    assert!(!reg.is_open("c"));
    assert_eq!(reg.remove("a"), Some(1));
    assert!(!reg.is_open("a"));
    assert!(reg.is_open("b"));
    assert_eq!(reg.remove("a"), None);
}

#[test]
fn registry_insert_same_name_replaces_handle() {
    let mut reg: PortRegistry<u32> = PortRegistry::new();
    reg.insert("a".to_string(), 1);
    reg.insert("a".to_string(), 2);
    assert_eq!(reg.remove("a"), Some(2));
    assert!(!reg.is_open("a"));
}

#[test]
fn registry_hands_out_the_handle_for_mutation() {
    let mut reg: PortRegistry<u32> = PortRegistry::new();
    reg.insert("a".to_string(), 7);
    reg.insert("b".to_string(), 8);
    let h = reg.get_handle("a");
    assert_eq!(*h, 7);
    *h = 9;
    assert_eq!(reg.remove("a"), Some(9));
    assert_eq!(reg.remove("b"), Some(8));
}
