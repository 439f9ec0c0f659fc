use modem_telemetry::transport::{
    frame_command, is_reply_complete, InventorySession, ReadEvent, ReadStep, ReplyCollector,
};

#[test]
fn command_is_framed_with_carriage_return() {
    assert_eq!(frame_command("AT+CSQ?"), b"AT+CSQ?\r".to_vec());
    assert_eq!(frame_command(""), vec![13u8]);
}

#[test]
fn reply_terminators() {
    assert!(is_reply_complete("+CSQ: 11,2\r\n\r\nOK\r\n"));
    assert!(is_reply_complete("+CME ERROR: 10"));
    assert!(!is_reply_complete("+CSQ: 11,2\r\n"));
    assert!(!is_reply_complete("O"));
    assert!(!is_reply_complete(""));
}

#[test]
fn collector_accumulates_until_ok() {
    let mut c = ReplyCollector::new(100);
    assert!(c.step(ReadEvent::Received("+CSQ: 11,2\r\n".to_string())) == ReadStep::Continue);
    assert!(c.step(ReadEvent::TimedOut(50)) == ReadStep::Continue);
    assert!(c.step(ReadEvent::Received("\r\nO".to_string())) == ReadStep::Continue);
    assert!(c.step(ReadEvent::Received("K\r\n".to_string())) == ReadStep::Complete);
    assert_eq!(c.response, "+CSQ: 11,2\r\n\r\nOK\r\n");
}

#[test]
fn collector_deadline_and_failure() {
    let mut c = ReplyCollector::new(100);
    assert!(c.step(ReadEvent::TimedOut(101)) == ReadStep::Complete);
    assert_eq!(c.response, "");
    assert!(c.step(ReadEvent::Failed("broken pipe".to_string())) == ReadStep::Abort("broken pipe".to_string()));
}

#[test]
fn inventory_script_order() {
    let mut s = InventorySession::new();
    let mut issued = Vec::new();
    while let Some(cmd) = s.next_command() {
        issued.push(cmd);
        s.record_reply(cmd);
    }
    assert_eq!(issued.len(), 12);
    assert_eq!(issued[0], "AT+CGMI?");
    assert_eq!(issued[10], "AT+XCCINFO?; +XLEC?; +XMCI=1");
    assert_eq!(issued[11], "AT+XACT?");
    assert!(s.buffer.starts_with("AT+CGMI?AT+FMM?"));
}
