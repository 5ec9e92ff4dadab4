use clockify_to_solidtime::completions::{BrokenPipeSafeWriter, IoOutcome, WriteReport};

struct BrokenPipeWriter;

#[test]
fn broken_pipe_does_not_fail_completion_generation() {
    let mut writer = BrokenPipeSafeWriter::new(BrokenPipeWriter);
    let output = b"completion output";

    // The underlying writer reports a broken pipe for the write and the flush.
    assert_eq!(writer.after_write(output.len(), IoOutcome::BrokenPipe), WriteReport::Written(output.len()));
    assert_eq!(writer.after_flush(IoOutcome::BrokenPipe), WriteReport::Written(0));
}

#[test]
fn closed_writer_accepts_everything_and_other_errors_pass_on() {
    let mut writer = BrokenPipeSafeWriter::new(());
    assert_eq!(writer.after_write(5, IoOutcome::Done(3)), WriteReport::Written(3));
    assert_eq!(writer.after_write(5, IoOutcome::Failed), WriteReport::PassOnError);
    assert!(!writer.is_closed());
    assert_eq!(writer.after_flush(IoOutcome::Failed), WriteReport::PassOnError);
    assert_eq!(writer.after_write(5, IoOutcome::BrokenPipe), WriteReport::Written(5));
    assert!(writer.is_closed());
    assert_eq!(writer.after_write(9, IoOutcome::Failed), WriteReport::Written(9));
    assert_eq!(writer.after_flush(IoOutcome::Failed), WriteReport::Written(0));
}
