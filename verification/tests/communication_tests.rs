use grease::module_communication::{
    broadcast_outcome, send_outcome, MessageHandler, MessageReceiver, ModuleChannel, ModuleCommunication, ModuleMessage, StatusType,
    StatusUpdateMessage, UIEventMessage, UIEventType,
};
use grease::module_errors::ModuleError;
use std::sync::{Arc, Mutex};

struct TestReceiver {
    received_messages: Arc<Mutex<Vec<String>>>,
    fail: bool,
}

impl TestReceiver {
    fn new(_name: String) -> Self {
        Self { received_messages: Arc::new(Mutex::new(Vec::new())), fail: false }
    }
}

impl MessageReceiver for TestReceiver {
    fn receive(&self, message: &ModuleMessage) -> Result<(), ModuleError> {
        if self.fail {
            return Err(ModuleError::InitializationFailed { module: "r".to_string(), error: "down".to_string() });
        }
        let mut messages = self.received_messages.lock().unwrap();
        messages.push(message.kind_name().to_string());
        Ok(())
    }

    fn can_handle(&self, _message_type: &str) -> bool {
        true
    }
}

struct TestHandler {
    name: String,
    handled_count: Arc<Mutex<u32>>,
}

impl TestHandler {
    fn new(name: String) -> Self {
        Self { name, handled_count: Arc::new(Mutex::new(0)) }
    }
}

impl MessageHandler for TestHandler {
    fn handle_message(&mut self, _message: &ModuleMessage) -> Result<(), ModuleError> {
        let mut count = self.handled_count.lock().unwrap();
        *count += 1;
        Ok(())
    }

    fn handler_name(&self) -> &str {
        &self.name
    }
}

fn ready(module: &str) -> ModuleMessage {
    ModuleMessage::StatusUpdate(StatusUpdateMessage {
        status_type: StatusType::Ready,
        module_name: module.to_string(),
        status: "ready".to_string(),
        details: None,
    })
}

#[test]
fn test_module_channel_creation() {
    let channel: ModuleChannel<TestReceiver> = ModuleChannel::new("test_channel".to_string());
    assert_eq!(channel.name, "test_channel");
}

#[test]
fn test_module_channel_send_receive() {
    let mut channel = ModuleChannel::new("test_channel".to_string());
    let receiver = TestReceiver::new("test_receiver".to_string());
    let seen = receiver.received_messages.clone();
    channel.add_receiver(receiver);

    let message = ready("test_module");

    assert!(channel.send(message).is_ok());

    let messages = channel.get_messages();
    assert_eq!(messages.len(), 1);
    assert_eq!(seen.lock().unwrap().len(), 1);
    assert!(channel.get_messages().is_empty());
}

#[test]
fn test_module_communication_creation() {
    let comm: ModuleCommunication<TestReceiver, TestHandler> = ModuleCommunication::new();
    let metrics = comm.get_performance_metrics();
    assert_eq!(metrics.messages_sent, 0);
    assert_eq!(metrics.messages_received, 0);
}

#[test]
fn test_channel_creation() {
    let mut comm: ModuleCommunication<TestReceiver, TestHandler> = ModuleCommunication::new();
    assert!(comm.create_channel("test_channel".to_string()).is_ok());

    assert!(comm.create_channel("test_channel".to_string()).is_err());
}

#[test]
fn test_handler_registration() {
    let mut comm: ModuleCommunication<TestReceiver, TestHandler> = ModuleCommunication::new();
    let handler = TestHandler::new("test_handler".to_string());

    assert!(comm.register_handler("test_handler".to_string(), handler).is_ok());

    let handler2 = TestHandler::new("test_handler2".to_string());
    assert!(comm.register_handler("test_handler".to_string(), handler2).is_err());
}

#[test]
fn test_send_to_channel() {
    let mut comm: ModuleCommunication<TestReceiver, TestHandler> = ModuleCommunication::new();
    comm.create_channel("test_channel".to_string()).unwrap();

    assert!(comm.send_to_channel("test_channel", ready("test")).is_ok());

    assert!(comm.send_to_channel("nonexistent", ready("test")).is_err());
    let metrics = comm.get_performance_metrics();
    assert_eq!(metrics.messages_sent, 1);
    assert_eq!(metrics.bytes_transferred, 256);
}

#[test]
fn test_performance_metrics() {
    let mut comm: ModuleCommunication<TestReceiver, TestHandler> = ModuleCommunication::new();
    let initial_metrics = comm.get_performance_metrics();
    assert_eq!(initial_metrics.messages_sent, 0);

    comm.reset_metrics();
    let reset_metrics = comm.get_performance_metrics();
    assert_eq!(reset_metrics.messages_sent, 0);
    assert_eq!(reset_metrics.messages_received, 0);
}

#[test]
fn test_broadcast() {
    let mut comm: ModuleCommunication<TestReceiver, TestHandler> = ModuleCommunication::new();
    comm.create_channel("channel1".to_string()).unwrap();
    comm.create_channel("channel2".to_string()).unwrap();

    assert!(comm.broadcast(ready("test")).is_ok());
}

#[test]
fn process_reports_messages_without_handler() {
    let mut comm: ModuleCommunication<TestReceiver, TestHandler> = ModuleCommunication::new();
    comm.create_channel("ui".to_string()).unwrap();
    comm.register_handler("status_update".to_string(), TestHandler::new("h".to_string())).unwrap();
    comm.send_to_channel("ui", ready("a")).unwrap();
    comm.send_to_channel(
        "ui",
        ModuleMessage::UIEvent(UIEventMessage {
            event_type: UIEventType::ButtonClick,
            widget_id: "b".to_string(),
            data: "{\"clicked\":true}".to_string(),
            timestamp: 1234567890,
        }),
    )
    .unwrap();
    match comm.process_messages() {
        Err(ModuleError::InitializationFailed { module, error }) => {
            assert_eq!(module, "communication");
            assert_eq!(error, "No handler for message type 'ui_event' on channel 'ui'");
        }
        _ => panic!("expected an error for the ui event"),
    }
    assert_eq!(comm.get_performance_metrics().messages_received, 2);
    assert!(comm.process_messages().is_ok());
}

#[test]
fn failing_receiver_refuses_the_message() {
    let mut channel = ModuleChannel::new("c".to_string());
    let mut receiver = TestReceiver::new("r".to_string());
    receiver.fail = true;
    channel.add_receiver(receiver);
    match channel.send(ready("m")) {
        Err(ModuleError::InitializationFailed { module, .. }) => assert_eq!(module, "c"),
        _ => panic!("expected the receiver's failure"),
    }
    assert!(channel.get_messages().is_empty());
}

#[test]
fn send_outcome_reports_each_failed_receiver() {
    let fail = |m: &str| ModuleError::InitializationFailed { module: m.to_string(), error: "down".to_string() };
    assert!(send_outcome("ch", &vec![Ok(()), Ok(())]).is_ok());
    assert!(send_outcome("ch", &vec![]).is_ok());
    let answers = vec![Err(fail("a")), Ok(()), Err(fail("b"))];
    let expected = format!(
        "Receiver error: {}; Receiver error: {}",
        fail("a").to_display_string(),
        fail("b").to_display_string()
    );
    match send_outcome("ch", &answers) {
        Err(ModuleError::InitializationFailed { module, error }) => {
            assert_eq!(module, "ch");
            assert_eq!(error, expected);
        }
        other => panic!("unexpected outcome: {:?}", other),
    }
}

#[test]
fn broadcast_outcome_names_the_failed_channels() {
    let down = ModuleError::InitializationFailed { module: "ui".to_string(), error: "down".to_string() };
    let text = down.to_display_string();
    assert!(broadcast_outcome(&vec![("ui".to_string(), Ok(()))]).is_ok());
    let outcomes = vec![("ui".to_string(), Err(down)), ("net".to_string(), Ok(()))];
    match broadcast_outcome(&outcomes) {
        Err(ModuleError::InitializationFailed { module, error }) => {
            assert_eq!(module, "communication");
            assert_eq!(error, format!("Channel 'ui' error: {}", text));
        }
        other => panic!("unexpected outcome: {:?}", other),
    }
}
