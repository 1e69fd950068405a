use adsb_deku::ICAO;
use airjedi::{
    AircraftRecord, DecoderMetaData, DynOutputModule, OutputError, OutputModuleBase, OutputModuleBuilder,
    OutputModuleConfig, OutputModuleManager, OutputModuleRegistry, RawOutputModule,
};
use std::cell::Cell;
use std::rc::Rc;

struct Builder {
    kind: &'static str,
}

impl OutputModuleBuilder for Builder {
    fn module_type(&self) -> &str {
        self.kind
    }

    fn description(&self) -> &str {
        "test sink"
    }

    fn default_port(&self) -> u16 {
        30005
    }
}

#[test]
fn registry_keys_by_lower_case() {
    let mut registry = OutputModuleRegistry::new();
    registry.register(Builder { kind: "BEAST" });
    registry.register(Builder { kind: "Beast" });
    registry.register(Builder { kind: "Raw" });
    assert_eq!(registry.available_types(), vec!["beast", "raw"]);
    assert!(registry.get_builder("bEaSt").is_some());
    assert!(registry.get_builder("avr").is_none());
    let config = registry.default_config("RAW").unwrap();
    assert_eq!(config.name, "RAW");
    assert_eq!(config.port, 30005);
    assert_eq!(config.buffer_capacity, 1024);
    assert!(registry.default_config("sbs1").is_none());
    assert!(OutputModuleRegistry::with_builtin_modules().available_types().is_empty());
}

#[test]
fn builder_matches_format_without_ascii_case() {
    let b = Builder { kind: "WebSocket" };
    assert!(b.supports_format("websocket"));
    assert!(b.supports_format("WEBSOCKET"));
    assert!(!b.supports_format("websockets"));
    assert!(!b.supports_format("sbs1"));
}

#[test]
fn config_builders() {
    let c = OutputModuleConfig::new("beast", 30005).with_buffer_capacity(64).with_extra("a", "1").with_extra("b", "2").with_extra("a", "3");
    assert_eq!(c.buffer_capacity, 64);
    assert!(c.enabled);
    assert_eq!(c.extra, vec![("a".to_string(), "3".to_string()), ("b".to_string(), "2".to_string())]);
}

struct CountingSink {
    frames: Rc<Cell<usize>>,
    fail: bool,
    running: bool,
}

impl OutputModuleBase for CountingSink {
    fn name(&self) -> &str {
        "counting"
    }
    fn description(&self) -> &str {
        "counts frames"
    }
    fn port(&self) -> u16 {
        1
    }
    fn client_count(&self) -> usize {
        2
    }
    fn is_running(&self) -> bool {
        self.running
    }
    fn stop(&mut self) -> Result<(), OutputError> {
        self.running = false;
        Ok(())
    }
}

impl RawOutputModule for CountingSink {
    fn name(&self) -> &str {
        OutputModuleBase::name(self)
    }
    fn description(&self) -> &str {
        OutputModuleBase::description(self)
    }
    fn port(&self) -> u16 {
        OutputModuleBase::port(self)
    }
    fn client_count(&self) -> usize {
        OutputModuleBase::client_count(self)
    }
    fn is_running(&self) -> bool {
        OutputModuleBase::is_running(self)
    }
    fn stop(&mut self) -> Result<(), OutputError> {
        OutputModuleBase::stop(self)
    }
    fn broadcast_raw_packet(&self, _data: &[u8], _metadata: &DecoderMetaData) -> Result<(), OutputError> {
        self.frames.set(self.frames.get() + 1);
        if self.fail {
            Err(OutputError { message: "down".to_string() })
        } else {
            Ok(())
        }
    }
}

#[test]
fn every_raw_sink_gets_each_frame_once_despite_failures() {
    let a = Rc::new(Cell::new(0));
    let b = Rc::new(Cell::new(0));
    let mut manager = OutputModuleManager::new();
    manager.add_raw_module(Box::new(CountingSink { frames: a.clone(), fail: true, running: true }));
    manager.add_raw_module(Box::new(CountingSink { frames: b.clone(), fail: false, running: true }));
    let meta = DecoderMetaData { preamble_index: 0, preamble_correlation_bits: 0, crc_passed: true, timestamp: 0 };
    assert_eq!(manager.broadcast_raw(&[1, 2, 3], &meta), 2);
    assert_eq!(manager.broadcast_to_all(&[1, 2, 3], &meta), (0, 2));
    assert_eq!((a.get(), b.get()), (2, 2));
    assert_eq!(manager.module_count(), 2);
    assert_eq!(manager.total_client_count(), 4);
    let status = manager.module_status();
    assert_eq!(status[0], ("counting".to_string(), 1, 2, true));
    assert!(manager.stop_all().is_ok());
    assert_eq!(manager.module_count(), 0);
}

#[test]
fn dyn_module_queries() {
    let mut m = DynOutputModule::Raw(Box::new(CountingSink { frames: Rc::new(Cell::new(0)), fail: false, running: true }));
    assert_eq!(m.name(), "counting");
    assert_eq!(m.port(), 1);
    assert_eq!(m.client_count(), 2);
    assert!(m.is_running());
    assert!(m.stop().is_ok());
    assert!(!m.is_running());
    let _unused: Option<&AircraftRecord> = None;
    let _icao = ICAO([0, 0, 0]);
}
