use edgee::models::{EdgeeConfig, Message, ClientError};

#[test]
fn test_exports() {
    // Verify that all main types are accessible
    let _: Result<(), ClientError> = Ok(());
    let _config = EdgeeConfig::new("test");
    let _msg = Message::user("test");
}
