use xtrooder::at::{
    serialize_command_read, serialize_command_write, serialize_token, ATCommand, ATRole,
    ATRoleParams, ATUartParams,
};

#[test]
fn test_serialize_token_ping() {
    let token = ATCommand::Ping;
    let result = serialize_command_read(&token);
    assert!(result.is_ok());
    assert_eq!("AT\r\n", result.unwrap().as_str());
}

#[test]
fn test_serialize_token_reset() {
    let token = ATCommand::Reset;
    let result = serialize_command_read(&token);
    assert!(result.is_ok());
    assert_eq!("AT+RESET\r\n", result.unwrap().as_str());
}

#[test]
fn test_serialize_token_name() {
    let token = ATCommand::Name(None);
    let result = serialize_command_read(&token);
    assert!(result.is_ok());
    assert_eq!("AT+NAME?\r\n", result.unwrap().as_str());
}

#[test]
fn test_serialize_token_address() {
    let token = ATCommand::Address(None);
    let result = serialize_command_read(&token);
    assert!(result.is_ok());
    assert_eq!("AT+ADDR?\r\n", result.unwrap().as_str());
}

#[test]
fn test_serialize_token_role() {
    let token = ATCommand::Role(None);
    let result = serialize_command_read(&token);
    assert!(result.is_ok());
    assert_eq!("AT+ROLE?\r\n", result.unwrap().as_str());
}

// ---------------------------------------------------------------------------

#[test]
fn read_forms_of_the_other_commands() {
    assert_eq!("AT+VERSION?\r\n", serialize_command_read(&ATCommand::Version(None)).unwrap().as_str());
    assert_eq!("AT+UART?\r\n", serialize_command_read(&ATCommand::Uart(None)).unwrap().as_str());
}

#[test]
fn token_names() {
    assert_eq!(serialize_token(&ATCommand::Ping), Ok("AT"));
    assert_eq!(serialize_token(&ATCommand::Uart(None)), Ok("UART"));
}

#[test]
fn write_form_needs_parameters() {
    assert!(serialize_command_write(&ATCommand::Ping).is_err());
    assert!(serialize_command_write(&ATCommand::Role(None)).is_err());
    let role = ATCommand::Role(Some(ATRoleParams { value: ATRole::Master }));
    assert_eq!(serialize_command_write(&role).unwrap().as_str(), "");
    let uart = ATCommand::Uart(Some(ATUartParams { baudrate: 9600, stop_bit: 0, parity_bit: 0 }));
    assert!(serialize_command_write(&uart).is_ok());
}

#[test]
fn role_digits() {
    assert_eq!(char::from(ATRole::Slave), '0');
    assert_eq!(char::from(ATRole::Master), '1');
    assert_eq!(char::from(ATRole::SlaveLoop), '2');
}
