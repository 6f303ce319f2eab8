use serial_bridge::config::{validate_configuration, Config, ConfigError};

fn config(blender: bool, visualizer: bool, blender_port: u16, viz_port: u16) -> Config {
    Config {
        port: String::from("/dev/ttyACM0"),
        baud: 115200,
        host: String::from("127.0.0.1"),
        blender,
        visualizer,
        blender_port,
        viz_port,
    }
}

#[test]
fn both_enabled_with_same_port_is_rejected() {
    let r = validate_configuration(&config(true, true, 65432, 65432));
    assert_eq!(r, Err(ConfigError::SamePorts));
    assert_eq!(
        r.unwrap_err().message(),
        "Blender and Visualizer ports must be different"
    );
}

#[test]
fn no_consumer_enabled_is_rejected() {
    let r = validate_configuration(&config(false, false, 65432, 65433));
    assert_eq!(r, Err(ConfigError::NoConsumer));
    assert_eq!(
        r.unwrap_err().message(),
        "At least one of --blender or --visualizer must be specified"
    );
}

#[test]
fn single_consumer_is_accepted() {
    assert!(validate_configuration(&config(true, false, 65432, 65432)).is_ok());
    assert!(validate_configuration(&config(false, true, 65432, 65432)).is_ok());
}

#[test]
fn both_enabled_with_distinct_ports_is_accepted() {
    assert!(validate_configuration(&config(true, true, 65432, 65433)).is_ok());
}
