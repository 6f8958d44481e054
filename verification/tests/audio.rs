use progressor_sonify::audio::{mk_stream, ConfigError, OutputConfig, SampleFormat};
use progressor_sonify::codec::{encode, TelemetryFrame, WeightSample};
use progressor_sonify::gatt::Endpoints;
use progressor_sonify::session::{interaction, Action, Event, Session, Step};
use progressor_sonify::shared::{RunningFlag, SharedWeightCell};

fn config(sample_format: SampleFormat, sample_rate: u32, channels: u16) -> OutputConfig {
    OutputConfig { sample_format, sample_rate, channels }
}

#[test]
fn mk_stream_serves_float_samples_only() {
    let formats = [
        SampleFormat::I8,
        SampleFormat::I16,
        SampleFormat::I32,
        SampleFormat::I64,
        SampleFormat::U8,
        SampleFormat::U16,
        SampleFormat::U32,
        SampleFormat::U64,
        SampleFormat::F64,
        SampleFormat::Other,
    ];
    for format in formats {
        match mk_stream(&config(format, 48_000, 2)) {
            Err(fault) => assert_eq!(fault, ConfigError::UnsupportedSampleFormat),
            Ok(_) => panic!("served {:?}", format),
        }
    }
    assert!(mk_stream(&config(SampleFormat::F32, 48_000, 2)).is_ok());
}

#[test]
fn mk_stream_names_the_first_fault() {
    let fault = |c: OutputConfig| mk_stream(&c).err();
    assert_eq!(fault(config(SampleFormat::I16, 0, 0)), Some(ConfigError::UnsupportedSampleFormat));
    assert_eq!(fault(config(SampleFormat::F32, 0, 0)), Some(ConfigError::ZeroSampleRate));
    assert_eq!(fault(config(SampleFormat::F32, 0, 2)), Some(ConfigError::ZeroSampleRate));
    assert_eq!(fault(config(SampleFormat::F32, 44_100, 0)), Some(ConfigError::NoChannels));
    assert_eq!(fault(config(SampleFormat::F32, 1, 1)), None);
}

#[test]
fn mk_stream_starts_at_rest() {
    let engine = mk_stream(&config(SampleFormat::F32, 44_100, 6)).ok().unwrap();
    assert_eq!(engine.sample_rate(), 44_100);
    assert_eq!(engine.channels(), 6);
    assert_eq!(engine.frequency(), 0);
    assert_eq!(engine.phase(), 0);
}

#[test]
fn config_error_messages() {
    assert_eq!(ConfigError::UnsupportedSampleFormat.message(), "unsupported sample format");
    assert_eq!(ConfigError::ZeroSampleRate.message(), "sample rate is zero");
    assert_eq!(ConfigError::NoChannels.message(), "no output channels");
}

#[test]
fn write_data_gives_each_frame_one_phase_on_every_channel() {
    let mut engine = mk_stream(&config(SampleFormat::F32, 48_000, 2)).ok().unwrap();
    let mut buffer = vec![9u32; 8];
    engine.write_data(0.0f32.to_bits(), &mut buffer);
    assert_eq!(buffer, vec![110, 110, 220, 220, 330, 330, 440, 440]);
    assert_eq!(engine.frequency(), 110);
    assert_eq!(engine.phase(), 440);
    engine.write_data(0.5f32.to_bits(), &mut buffer);
    assert_eq!(buffer, vec![550, 550, 660, 660, 770, 770, 880, 880]);
}

#[test]
fn write_data_goes_on_in_phase_at_a_new_weight() {
    let mut engine = mk_stream(&config(SampleFormat::F32, 1_000, 1)).ok().unwrap();
    let mut buffer = vec![0u32; 4];
    engine.write_data(0.0f32.to_bits(), &mut buffer);
    assert_eq!(buffer, vec![110, 220, 330, 440]);
    engine.write_data(2.5f32.to_bits(), &mut buffer);
    assert_eq!(buffer, vec![770, 100, 430, 760]);
    assert_eq!(engine.frequency(), 330);
    engine.write_data((-3.0f32).to_bits(), &mut buffer);
    assert_eq!(buffer, vec![540, 320, 100, 880]);
    assert_eq!(engine.frequency(), -220);
}

#[test]
fn write_data_counts_a_frame_that_is_cut_short() {
    let mut engine = mk_stream(&config(SampleFormat::F32, 48_000, 3)).ok().unwrap();
    let mut buffer = vec![0u32; 7];
    engine.write_data(1.0f32.to_bits(), &mut buffer);
    assert_eq!(buffer, vec![220, 220, 220, 440, 440, 440, 660]);
    assert_eq!(engine.phase(), 660);
    let mut next = vec![0u32; 3];
    engine.write_data(1.0f32.to_bits(), &mut next);
    assert_eq!(next, vec![880, 880, 880]);
}

#[test]
fn write_data_leaves_an_empty_buffer_and_the_engine_alone() {
    let mut engine = mk_stream(&config(SampleFormat::F32, 48_000, 2)).ok().unwrap();
    let mut buffer = vec![0u32; 2];
    engine.write_data(1.0f32.to_bits(), &mut buffer);
    let mut empty: Vec<u32> = Vec::new();
    engine.write_data(4.0f32.to_bits(), &mut empty);
    assert!(empty.is_empty());
    assert_eq!(engine.frequency(), 220);
    assert_eq!(engine.phase(), 220);
}

#[test]
fn write_data_with_many_channels_and_a_short_buffer() {
    let mut engine = mk_stream(&config(SampleFormat::F32, 48_000, u16::MAX)).ok().unwrap();
    let mut buffer = vec![0u32; 5];
    engine.write_data(0.0f32.to_bits(), &mut buffer);
    assert_eq!(buffer, vec![110; 5]);
    engine.write_data(0.0f32.to_bits(), &mut buffer);
    assert_eq!(buffer, vec![220; 5]);
}

#[test]
fn three_notifications_set_three_tones() {
    let at = Endpoints { service: 0, control: 0, data: 1 };
    let mut session = Session { step: Step::Streaming(at), failure: None };
    let running = RunningFlag::new();
    let mut cell = SharedWeightCell::new();
    let mut engine = mk_stream(&config(SampleFormat::F32, 48_000, 2)).ok().unwrap();
    let mut buffer = vec![0u32; 64];
    let mut counter = 0u32;
    let mut heard = Vec::new();
    for weight in [0.0f32, 1.2, 3.9] {
        counter += 1;
        let frame =
            TelemetryFrame::WeightMeasurement(WeightSample { value: weight.to_bits(), counter });
        let event = Event::Notification { running: running.is_running(), value: encode(&frame) };
        let (next, action) = interaction(session, &event);
        session = next;
        match action {
            Action::StoreWeight { weight } => cell.write(weight),
            other => panic!("unexpected {:?}", other),
        }
        assert_eq!(f32::from_bits(cell.read()), weight);
        engine.write_data(cell.read(), &mut buffer);
        heard.push(engine.frequency());
    }
    assert_eq!(heard, vec![110, 220, 440]);
    assert_eq!(session.step, Step::Streaming(at));
}
