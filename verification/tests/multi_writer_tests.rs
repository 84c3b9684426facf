use rogger::memory_writer::{FailingWriter, MemoryWriter};
use rogger::multi_writer::MultiWriter;
use rogger::sink_kind::SinkKind;
use rogger::writer::{IoError, Writer};

#[test]
fn test_fan_out_reaches_every_sink() {
    let mut mw: MultiWriter<SinkKind> = MultiWriter::new();
    mw.add_writer(SinkKind::Memory(MemoryWriter::new()));
    mw.add_writer(SinkKind::Memory(MemoryWriter::new()));
    assert_eq!(mw.write_all("hello"), Ok(()));
    assert_eq!(mw.write_all("world"), Ok(()));
    for sink in &mw.writers {
        match sink {
            SinkKind::Memory(m) => {
                assert_eq!(m.lines, vec!["hello".to_string(), "world".to_string()])
            },
            _ => panic!("expected a memory sink"),
        }
    }
}

#[test]
fn test_fan_out_fails_fast() {
    // Sinks [A, B] where A fails: B never observes the line, and the call
    // returns A's error.
    let mut mw: MultiWriter<SinkKind> = MultiWriter::new();
    mw.add_writer(SinkKind::Failing(FailingWriter::new(IoError::StreamBroken)));
    mw.add_writer(SinkKind::Memory(MemoryWriter::new()));
    assert_eq!(mw.write_all("line"), Err(IoError::StreamBroken));
    match &mw.writers[1] {
        SinkKind::Memory(m) => assert_eq!(m.lines.len(), 0),
        _ => panic!("expected a memory sink"),
    }
}

#[test]
fn test_fan_out_through_writer_trait() {
    let mut mw: MultiWriter<MemoryWriter> = MultiWriter::new();
    mw.add_writer(MemoryWriter::new());
    assert_eq!(mw.write("via trait"), Ok(()));
    assert_eq!(mw.writers[0].lines, vec!["via trait".to_string()]);
}

#[test]
fn test_empty_fan_out_accepts() {
    let mut mw: MultiWriter<SinkKind> = MultiWriter::new();
    assert_eq!(mw.write_all("nobody listens"), Ok(()));
}

#[test]
fn test_console_writer_accepts() {
    let mut c = rogger::console_writer::ConsoleWriter::new();
    assert_eq!(c.write("console line"), Ok(()));
}
