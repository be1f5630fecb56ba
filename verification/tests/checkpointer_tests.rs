use kcl::checkpointer::Checkpointer;
use kcl::processor::Processor;
use kcl::reader::MemoryReader;
use kcl::tick;
use kcl::writer::MemoryWriter;
use kcl::{CheckpointError, Record};

struct CheckpointingProcessor {
    records: Vec<Record>,
}

impl kcl::processor::ProcessorLog for CheckpointingProcessor {}

impl Processor<MemoryReader, MemoryWriter> for CheckpointingProcessor {
    fn initialize(&mut self, _shard_id: &str) {}

    fn process_records(
        &mut self,
        data: &[Record],
        checkpointer: &mut Checkpointer<MemoryReader, MemoryWriter>,
    ) {
        for record in data {
            self.records.push((*record).clone())
        }
        match checkpointer.checkpoint(None, None) {
            Ok(_) => {}
            Err(error) => {
                let shown = match &error {
                    CheckpointError::Exception(msg) => format!("Exception: \"{}\"", msg),
                    other => other.describe(),
                };
                panic!("{}, retryable: {}", shown, error.is_retryable())
            }
        };
    }

    fn lease_lost(&mut self) {}

    fn shard_ended(&mut self, _checkpointer: &mut Checkpointer<MemoryReader, MemoryWriter>) {}

    fn shutdown_requested(&mut self, _checkpointer: &mut Checkpointer<MemoryReader, MemoryWriter>) {
    }
}

fn tick_into_processor(
    message: &str,
    checkpoint_response: &str,
) -> (CheckpointingProcessor, MemoryWriter) {
    let mut processor = CheckpointingProcessor {
        records: Vec::new(),
    };
    let mut reader = MemoryReader::with_input(message.to_string());
    reader.add_input(checkpoint_response.to_string());

    let writer = MemoryWriter::new();
    let mut channel = Checkpointer::new(reader, writer);

    tick(&mut processor, &mut channel).unwrap();

    (processor, channel.writer)
}

#[test]
fn test_checkpoint_success() {
    let message = "{\"action\" :\"processRecords\", \"records\": []}";
    let checkpoint_response = "{\"action\":\"checkpoint\",\"checkpoint\":null,\"error\":null}";
    let (_processor, mut writer) = tick_into_processor(message, checkpoint_response);

    assert_eq!(writer.outputs.len(), 2);
    // Last thing sent is the process records status
    let expected_process_records_status =
        "{\"action\":\"status\",\"responseFor\":\"processRecords\"}\n";
    assert_eq!(
        writer.outputs.pop(),
        Some(expected_process_records_status.to_string())
    );

    // First thing sent should be the request to begin the checkpoint
    let expected_checkpoint_request =
        "{\"action\":\"checkpoint\",\"sequenceNumber\":null,\"subSequenceNumber\":null}\n";
    assert_eq!(
        writer.outputs.pop(),
        Some(expected_checkpoint_request.to_string())
    );
}

#[test]
#[should_panic(expected = "InvalidStateException, retryable: false")]
fn test_checkpoint_invalid_state_exception() {
    let message = "{\"action\" :\"processRecords\", \"records\": []}";
    let checkpoint_response =
        "{\"action\":\"checkpoint\",\"checkpoint\":null,\"error\":\"InvalidStateException\"}";
    let (_processor, mut writer) = tick_into_processor(message, checkpoint_response);

    let expected_checkpoint_request =
        "{\"action\":\"checkpoint\",\"sequenceNumber\":null,\"subSequenceNumber\":null}\n";
    assert_eq!(
        writer.outputs.pop(),
        Some(expected_checkpoint_request.to_string())
    );
}

#[test]
#[should_panic(expected = "KinesisClientLibDependencyException, retryable: true")]
fn test_checkpoint_kcl_dep_exception() {
    let message = "{\"action\" :\"processRecords\", \"records\": []}";
    let checkpoint_response =
        "{\"action\":\"checkpoint\",\"checkpoint\":null,\"error\":\"KinesisClientLibDependencyException\"}";
    let (_processor, mut writer) = tick_into_processor(message, checkpoint_response);

    let expected_checkpoint_request =
        "{\"action\":\"checkpoint\",\"sequenceNumber\":null,\"subSequenceNumber\":null}\n";
    assert_eq!(
        writer.outputs.pop(),
        Some(expected_checkpoint_request.to_string())
    );
}

#[test]
#[should_panic(expected = "ThrottlingException, retryable: true")]
fn test_checkpoint_throttle_exception() {
    let message = "{\"action\" :\"processRecords\", \"records\": []}";
    let checkpoint_response =
        "{\"action\":\"checkpoint\",\"checkpoint\":null,\"error\":\"ThrottlingException\"}";
    let (_processor, mut writer) = tick_into_processor(message, checkpoint_response);

    let expected_checkpoint_request =
        "{\"action\":\"checkpoint\",\"sequenceNumber\":null,\"subSequenceNumber\":null}\n";
    assert_eq!(
        writer.outputs.pop(),
        Some(expected_checkpoint_request.to_string())
    );
}

#[test]
#[should_panic(expected = "ShutdownException, retryable: false")]
fn test_checkpoint_shutdown_exception() {
    let message = "{\"action\" :\"processRecords\", \"records\": []}";
    let checkpoint_response =
        "{\"action\":\"checkpoint\",\"checkpoint\":null,\"error\":\"ShutdownException\"}";
    let (_processor, mut writer) = tick_into_processor(message, checkpoint_response);

    let expected_checkpoint_request =
        "{\"action\":\"checkpoint\",\"sequenceNumber\":null,\"subSequenceNumber\":null}\n";
    assert_eq!(
        writer.outputs.pop(),
        Some(expected_checkpoint_request.to_string())
    );
}

#[test]
#[should_panic(expected = "Exception: \"check your point\", retryable: false")]
fn test_checkpoint_unknown_error_exception() {
    let message = "{\"action\" :\"processRecords\", \"records\": []}";
    let checkpoint_response =
        "{\"action\":\"checkpoint\",\"checkpoint\":null,\"error\":\"check your point\"}";
    let (_processor, mut writer) = tick_into_processor(message, checkpoint_response);

    let expected_checkpoint_request =
        "{\"action\":\"checkpoint\",\"sequenceNumber\":null,\"subSequenceNumber\":null}\n";
    assert_eq!(
        writer.outputs.pop(),
        Some(expected_checkpoint_request.to_string())
    );
}

#[test]
#[should_panic(expected = "UnexpectedResponse, retryable: false")]
fn test_checkpoint_unexpected_response_exception() {
    let message = "{\"action\" :\"processRecords\", \"records\": []}";
    let checkpoint_response = "{\"action\" :\"processRecords\", \"records\": []}";
    let (_processor, mut writer) = tick_into_processor(message, checkpoint_response);

    let expected_checkpoint_request =
        "{\"action\":\"checkpoint\",\"sequenceNumber\":null,\"subSequenceNumber\":null}\n";
    assert_eq!(
        writer.outputs.pop(),
        Some(expected_checkpoint_request.to_string())
    );
}

#[test]
fn test_checkpoint_with_coordinates() {
    let mut reader = MemoryReader::new();
    reader.add_input("{\"action\":\"checkpoint\",\"checkpoint\":null,\"error\":null}".to_string());
    let mut channel = Checkpointer::new(reader, MemoryWriter::new());

    let r = channel.checkpoint(Some("495903382714902566"), Some(12));
    assert!(r.is_ok());
    assert_eq!(
        channel.writer.outputs.last(),
        Some(
            &"{\"action\":\"checkpoint\",\"sequenceNumber\":\"495903382714902566\",\"subSequenceNumber\":12}\n"
                .to_string()
        )
    );
}

#[test]
fn test_checkpoint_reply_not_a_message() {
    let mut reader = MemoryReader::new();
    reader.add_input("not json".to_string());
    let mut channel = Checkpointer::new(reader, MemoryWriter::new());

    let r = channel.checkpoint(None, None);
    assert!(matches!(r, Err(CheckpointError::Exception(_))));
}

#[test]
fn test_checkpoint_on_closed_channel() {
    let mut channel = Checkpointer::new(MemoryReader::new(), MemoryWriter::new());

    let r = channel.checkpoint(None, None);
    assert!(matches!(r, Err(CheckpointError::Exception(_))));
}
