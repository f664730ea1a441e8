use std::cell::RefCell;
use std::rc::Rc;

use flipdot::frame::{Address, Data};
use flipdot::message::{ChunkCount, Message, Offset, Operation, State};
use flipdot::page::{Page, PageFlipStyle, PageId};
use flipdot::sign::{Sign, SignError};
use flipdot::sign_bus::{BusError, SignBus};
use flipdot::sign_type::SignType;

const CONFIG: &[u8] = &[
    0x04, 0x20, 0x00, 0x06, 0x07, 0x1E, 0x1E, 0x1E, 0x00, 0x08, 0x00, 0x00, 0x00, 0x00, 0x00, 0x00,
];

const DATA: &[u8] = &[
    0x01, 0x10, 0x00, 0x00, 0x00, 0x00, 0x00, 0x00, 0x7F, 0x7F, 0x06, 0x0C, 0x18, 0x7F, 0x7F, 0x00,
    0x3E, 0x7F, 0x41, 0x41, 0x7F, 0x3E, 0x00, 0x01, 0x01, 0x7F, 0x7F, 0x01, 0x01, 0x00, 0x00, 0x00,
    0x00, 0x00, 0x41, 0x7F, 0x7F, 0x41, 0x00, 0x7F, 0x7F, 0x06, 0x0C, 0x18, 0x7F, 0x7F, 0x00, 0x00,
    0x00, 0x00, 0x00, 0x26, 0x6F, 0x49, 0x49, 0x7B, 0x32, 0x00, 0x7F, 0x7F, 0x49, 0x49, 0x41, 0x00,
    0x7F, 0x7F, 0x19, 0x39, 0x6F, 0x46, 0x00, 0x0F, 0x1F, 0x30, 0x60, 0x30, 0x1F, 0x0F, 0x00, 0x41,
    0x7F, 0x7F, 0x41, 0x00, 0x3E, 0x7F, 0x41, 0x41, 0x63, 0x22, 0x00, 0x7F, 0x7F, 0x49, 0xFF, 0xFF,
];

/// A bus that checks the messages sent to it against a script and returns the scripted reply
/// for each.
struct ScriptedSignBus<I: Iterator<Item = ScriptItem>> {
    iter: I,
}

impl<I: Iterator<Item = ScriptItem>> SignBus for ScriptedSignBus<I> {
    fn process_message(&mut self, message: Message) -> Result<Option<Message>, BusError> {
        let current_row = self.iter.next().expect("Ran out of scripted responses");
        assert_eq!(current_row.expected, message);
        current_row.response
    }
}

impl<I: Iterator<Item = ScriptItem>> ScriptedSignBus<I> {
    pub fn new(iter: I) -> Self {
        ScriptedSignBus { iter }
    }

    pub fn done(&mut self) {
        if self.iter.next().is_some() {
            panic!("Did not use all scripted messages");
        }
    }
}

/// A bus shared between the test and the sign under test.
struct Shared<B: SignBus>(Rc<RefCell<B>>);

impl<B: SignBus> SignBus for Shared<B> {
    fn process_message(&mut self, message: Message) -> Result<Option<Message>, BusError> {
        self.0.borrow_mut().process_message(message)
    }
}

#[derive(Debug)]
struct ScriptItem {
    pub expected: Message,
    pub response: Result<Option<Message>, BusError>,
}

#[test]
fn happy_path() -> Result<(), Box<dyn std::error::Error>> {
    let script = vec![
        ScriptItem {
            expected: Message::Hello(Address(3)),
            response: Ok(Some(Message::ReportState(Address(3), State::Unconfigured))),
        },
        ScriptItem {
            expected: Message::RequestOperation(Address(3), Operation::ReceiveConfig),
            response: Ok(Some(Message::AckOperation(Address(3), Operation::ReceiveConfig))),
        },
        ScriptItem {
            expected: Message::SendData(Offset(0), Data::try_new(CONFIG.to_vec()).unwrap()),
            response: Ok(None),
        },
        ScriptItem {
            expected: Message::DataChunksSent(ChunkCount(1)),
            response: Ok(None),
        },
        ScriptItem {
            expected: Message::QueryState(Address(3)),
            response: Ok(Some(Message::ReportState(Address(3), State::ConfigReceived))),
        },
        ScriptItem {
            expected: Message::RequestOperation(Address(3), Operation::ReceivePixels),
            response: Ok(Some(Message::AckOperation(Address(3), Operation::ReceivePixels))),
        },
        ScriptItem {
            expected: Message::SendData(Offset(0), Data::try_new(DATA[0..16].to_vec()).unwrap()),
            response: Ok(None),
        },
        ScriptItem {
            expected: Message::SendData(Offset(16), Data::try_new(DATA[16..32].to_vec()).unwrap()),
            response: Ok(None),
        },
        ScriptItem {
            expected: Message::SendData(Offset(32), Data::try_new(DATA[32..48].to_vec()).unwrap()),
            response: Ok(None),
        },
        ScriptItem {
            expected: Message::SendData(Offset(48), Data::try_new(DATA[48..64].to_vec()).unwrap()),
            response: Ok(None),
        },
        ScriptItem {
            expected: Message::SendData(Offset(64), Data::try_new(DATA[64..80].to_vec()).unwrap()),
            response: Ok(None),
        },
        ScriptItem {
            expected: Message::SendData(Offset(80), Data::try_new(DATA[80..96].to_vec()).unwrap()),
            response: Ok(None),
        },
        ScriptItem {
            expected: Message::DataChunksSent(ChunkCount(6)),
            response: Ok(None),
        },
        ScriptItem {
            expected: Message::QueryState(Address(3)),
            response: Ok(Some(Message::ReportState(Address(3), State::PixelsReceived))),
        },
        ScriptItem {
            expected: Message::PixelsComplete(Address(3)),
            response: Ok(None),
        },
        ScriptItem {
            expected: Message::QueryState(Address(3)),
            response: Ok(Some(Message::ReportState(Address(3), State::PageLoaded))),
        },
        ScriptItem {
            expected: Message::QueryState(Address(3)),
            response: Ok(Some(Message::ReportState(Address(3), State::PageLoaded))),
        },
        ScriptItem {
            expected: Message::RequestOperation(Address(3), Operation::ShowLoadedPage),
            response: Ok(Some(Message::AckOperation(Address(3), Operation::ShowLoadedPage))),
        },
        ScriptItem {
            expected: Message::QueryState(Address(3)),
            response: Ok(Some(Message::ReportState(Address(3), State::PageShowInProgress))),
        },
        ScriptItem {
            expected: Message::QueryState(Address(3)),
            response: Ok(Some(Message::ReportState(Address(3), State::PageShown))),
        },
    ];

    let bus = ScriptedSignBus::new(script.into_iter());
    let bus = Rc::new(RefCell::new(bus));
    let mut sign = Sign::new(Shared(bus.clone()), Address(3), SignType::Max3000Side90x7);

    sign.configure().map_err(|e| format!("{:?}", e))?;

    let page = Page::from_bytes(90, 7, DATA.to_vec()).map_err(|e| format!("{:?}", e))?;
    assert_eq!(PageFlipStyle::Manual, sign.send_pages(&[page]).map_err(|e| format!("{:?}", e))?);

    sign.show_loaded_page().map_err(|e| format!("{:?}", e))?;

    bus.borrow_mut().done();

    Ok(())
}

#[test]
fn config_retry() -> Result<(), Box<dyn std::error::Error>> {
    let script = vec![
        ScriptItem {
            expected: Message::Hello(Address(3)),
            response: Ok(Some(Message::ReportState(Address(3), State::Unconfigured))),
        },
        ScriptItem {
            expected: Message::RequestOperation(Address(3), Operation::ReceiveConfig),
            response: Ok(Some(Message::AckOperation(Address(3), Operation::ReceiveConfig))),
        },
        ScriptItem {
            expected: Message::SendData(Offset(0), Data::try_new(CONFIG.to_vec()).unwrap()),
            response: Ok(None),
        },
        ScriptItem {
            expected: Message::DataChunksSent(ChunkCount(1)),
            response: Ok(None),
        },
        ScriptItem {
            expected: Message::QueryState(Address(3)),
            response: Ok(Some(Message::ReportState(Address(3), State::ConfigFailed))),
        },
        ScriptItem {
            expected: Message::RequestOperation(Address(3), Operation::ReceiveConfig),
            response: Ok(Some(Message::AckOperation(Address(3), Operation::ReceiveConfig))),
        },
        ScriptItem {
            expected: Message::SendData(Offset(0), Data::try_new(CONFIG.to_vec()).unwrap()),
            response: Ok(None),
        },
        ScriptItem {
            expected: Message::DataChunksSent(ChunkCount(1)),
            response: Ok(None),
        },
        ScriptItem {
            expected: Message::QueryState(Address(3)),
            response: Ok(Some(Message::ReportState(Address(3), State::ConfigReceived))),
        },
    ];

    let bus = ScriptedSignBus::new(script.into_iter());
    let bus = Rc::new(RefCell::new(bus));
    let mut sign = Sign::new(Shared(bus.clone()), Address(3), SignType::Max3000Side90x7);

    sign.configure().map_err(|e| format!("{:?}", e))?;

    bus.borrow_mut().done();

    Ok(())
}

#[test]
fn config_retry_unexpected_state_fails() {
    let script = vec![
        ScriptItem {
            expected: Message::Hello(Address(3)),
            response: Ok(Some(Message::ReportState(Address(3), State::Unconfigured))),
        },
        ScriptItem {
            expected: Message::RequestOperation(Address(3), Operation::ReceiveConfig),
            response: Ok(Some(Message::AckOperation(Address(3), Operation::ReceiveConfig))),
        },
        ScriptItem {
            expected: Message::SendData(Offset(0), Data::try_new(CONFIG.to_vec()).unwrap()),
            response: Ok(None),
        },
        ScriptItem {
            expected: Message::DataChunksSent(ChunkCount(1)),
            response: Ok(None),
        },
        ScriptItem {
            expected: Message::QueryState(Address(3)),
            response: Ok(Some(Message::ReportState(Address(3), State::ConfigFailed))),
        },
        ScriptItem {
            expected: Message::RequestOperation(Address(3), Operation::ReceiveConfig),
            response: Ok(Some(Message::AckOperation(Address(3), Operation::ReceiveConfig))),
        },
        ScriptItem {
            expected: Message::SendData(Offset(0), Data::try_new(CONFIG.to_vec()).unwrap()),
            response: Ok(None),
        },
        ScriptItem {
            expected: Message::DataChunksSent(ChunkCount(1)),
            response: Ok(None),
        },
        ScriptItem {
            expected: Message::QueryState(Address(3)),
            response: Ok(Some(Message::ReportState(Address(3), State::PageShown))),
        },
    ];

    let bus = ScriptedSignBus::new(script.into_iter());
    let bus = Rc::new(RefCell::new(bus));
    let mut sign = Sign::new(Shared(bus.clone()), Address(3), SignType::Max3000Side90x7);

    let error = sign.configure().unwrap_err();
    assert!(matches!(error, SignError::UnexpectedResponse { .. }));

    bus.borrow_mut().done();
}

#[test]
fn config_retry_gives_up() {
    let script = vec![
        ScriptItem {
            expected: Message::Hello(Address(3)),
            response: Ok(Some(Message::ReportState(Address(3), State::Unconfigured))),
        },
        ScriptItem {
            expected: Message::RequestOperation(Address(3), Operation::ReceiveConfig),
            response: Ok(Some(Message::AckOperation(Address(3), Operation::ReceiveConfig))),
        },
        ScriptItem {
            expected: Message::SendData(Offset(0), Data::try_new(CONFIG.to_vec()).unwrap()),
            response: Ok(None),
        },
        ScriptItem {
            expected: Message::DataChunksSent(ChunkCount(1)),
            response: Ok(None),
        },
        ScriptItem {
            expected: Message::QueryState(Address(3)),
            response: Ok(Some(Message::ReportState(Address(3), State::ConfigFailed))),
        },
        ScriptItem {
            expected: Message::RequestOperation(Address(3), Operation::ReceiveConfig),
            response: Ok(Some(Message::AckOperation(Address(3), Operation::ReceiveConfig))),
        },
        ScriptItem {
            expected: Message::SendData(Offset(0), Data::try_new(CONFIG.to_vec()).unwrap()),
            response: Ok(None),
        },
        ScriptItem {
            expected: Message::DataChunksSent(ChunkCount(1)),
            response: Ok(None),
        },
        ScriptItem {
            expected: Message::QueryState(Address(3)),
            response: Ok(Some(Message::ReportState(Address(3), State::ConfigFailed))),
        },
        ScriptItem {
            expected: Message::RequestOperation(Address(3), Operation::ReceiveConfig),
            response: Ok(Some(Message::AckOperation(Address(3), Operation::ReceiveConfig))),
        },
        ScriptItem {
            expected: Message::SendData(Offset(0), Data::try_new(CONFIG.to_vec()).unwrap()),
            response: Ok(None),
        },
        ScriptItem {
            expected: Message::DataChunksSent(ChunkCount(1)),
            response: Ok(None),
        },
        ScriptItem {
            expected: Message::QueryState(Address(3)),
            response: Ok(Some(Message::ReportState(Address(3), State::ConfigFailed))),
        },
    ];

    let bus = ScriptedSignBus::new(script.into_iter());
    let bus = Rc::new(RefCell::new(bus));
    let mut sign = Sign::new(Shared(bus.clone()), Address(3), SignType::Max3000Side90x7);

    let error = sign.configure().unwrap_err();
    assert!(matches!(error, SignError::UnexpectedResponse { .. }));

    bus.borrow_mut().done();
}

#[test]
fn pixels_retry() -> Result<(), Box<dyn std::error::Error>> {
    let script = vec![
        ScriptItem {
            expected: Message::RequestOperation(Address(3), Operation::ReceivePixels),
            response: Ok(Some(Message::AckOperation(Address(3), Operation::ReceivePixels))),
        },
        ScriptItem {
            expected: Message::SendData(Offset(0), Data::try_new(DATA[0..16].to_vec()).unwrap()),
            response: Ok(None),
        },
        ScriptItem {
            expected: Message::SendData(Offset(16), Data::try_new(DATA[16..32].to_vec()).unwrap()),
            response: Ok(None),
        },
        ScriptItem {
            expected: Message::SendData(Offset(32), Data::try_new(DATA[32..48].to_vec()).unwrap()),
            response: Ok(None),
        },
        ScriptItem {
            expected: Message::SendData(Offset(48), Data::try_new(DATA[48..64].to_vec()).unwrap()),
            response: Ok(None),
        },
        ScriptItem {
            expected: Message::SendData(Offset(64), Data::try_new(DATA[64..80].to_vec()).unwrap()),
            response: Ok(None),
        },
        ScriptItem {
            expected: Message::SendData(Offset(80), Data::try_new(DATA[80..96].to_vec()).unwrap()),
            response: Ok(None),
        },
        ScriptItem {
            expected: Message::DataChunksSent(ChunkCount(6)),
            response: Ok(None),
        },
        ScriptItem {
            expected: Message::QueryState(Address(3)),
            response: Ok(Some(Message::ReportState(Address(3), State::PixelsFailed))),
        },
        ScriptItem {
            expected: Message::RequestOperation(Address(3), Operation::ReceivePixels),
            response: Ok(Some(Message::AckOperation(Address(3), Operation::ReceivePixels))),
        },
        ScriptItem {
            expected: Message::SendData(Offset(0), Data::try_new(DATA[0..16].to_vec()).unwrap()),
            response: Ok(None),
        },
        ScriptItem {
            expected: Message::SendData(Offset(16), Data::try_new(DATA[16..32].to_vec()).unwrap()),
            response: Ok(None),
        },
        ScriptItem {
            expected: Message::SendData(Offset(32), Data::try_new(DATA[32..48].to_vec()).unwrap()),
            response: Ok(None),
        },
        ScriptItem {
            expected: Message::SendData(Offset(48), Data::try_new(DATA[48..64].to_vec()).unwrap()),
            response: Ok(None),
        },
        ScriptItem {
            expected: Message::SendData(Offset(64), Data::try_new(DATA[64..80].to_vec()).unwrap()),
            response: Ok(None),
        },
        ScriptItem {
            expected: Message::SendData(Offset(80), Data::try_new(DATA[80..96].to_vec()).unwrap()),
            response: Ok(None),
        },
        ScriptItem {
            expected: Message::DataChunksSent(ChunkCount(6)),
            response: Ok(None),
        },
        ScriptItem {
            expected: Message::QueryState(Address(3)),
            response: Ok(Some(Message::ReportState(Address(3), State::PixelsReceived))),
        },
        ScriptItem {
            expected: Message::PixelsComplete(Address(3)),
            response: Ok(None),
        },
        ScriptItem {
            expected: Message::QueryState(Address(3)),
            response: Ok(Some(Message::ReportState(Address(3), State::PageLoaded))),
        },
    ];

    let bus = ScriptedSignBus::new(script.into_iter());
    let bus = Rc::new(RefCell::new(bus));
    let mut sign = Sign::new(Shared(bus.clone()), Address(3), SignType::Max3000Side90x7);

    let page = Page::from_bytes(90, 7, DATA.to_vec()).map_err(|e| format!("{:?}", e))?;
    assert_eq!(PageFlipStyle::Manual, sign.send_pages(&[page]).map_err(|e| format!("{:?}", e))?);

    bus.borrow_mut().done();

    Ok(())
}

#[test]
fn pixels_auto_flip() -> Result<(), Box<dyn std::error::Error>> {
    let script = vec![
        ScriptItem {
            expected: Message::RequestOperation(Address(3), Operation::ReceivePixels),
            response: Ok(Some(Message::AckOperation(Address(3), Operation::ReceivePixels))),
        },
        ScriptItem {
            expected: Message::SendData(Offset(0), Data::try_new(DATA[0..16].to_vec()).unwrap()),
            response: Ok(None),
        },
        ScriptItem {
            expected: Message::SendData(Offset(16), Data::try_new(DATA[16..32].to_vec()).unwrap()),
            response: Ok(None),
        },
        ScriptItem {
            expected: Message::SendData(Offset(32), Data::try_new(DATA[32..48].to_vec()).unwrap()),
            response: Ok(None),
        },
        ScriptItem {
            expected: Message::SendData(Offset(48), Data::try_new(DATA[48..64].to_vec()).unwrap()),
            response: Ok(None),
        },
        ScriptItem {
            expected: Message::SendData(Offset(64), Data::try_new(DATA[64..80].to_vec()).unwrap()),
            response: Ok(None),
        },
        ScriptItem {
            expected: Message::SendData(Offset(80), Data::try_new(DATA[80..96].to_vec()).unwrap()),
            response: Ok(None),
        },
        ScriptItem {
            expected: Message::DataChunksSent(ChunkCount(6)),
            response: Ok(None),
        },
        ScriptItem {
            expected: Message::QueryState(Address(3)),
            response: Ok(Some(Message::ReportState(Address(3), State::PixelsReceived))),
        },
        ScriptItem {
            expected: Message::PixelsComplete(Address(3)),
            response: Ok(None),
        },
        ScriptItem {
            expected: Message::QueryState(Address(3)),
            response: Ok(Some(Message::ReportState(Address(3), State::ShowingPages))),
        },
    ];

    let bus = ScriptedSignBus::new(script.into_iter());
    let bus = Rc::new(RefCell::new(bus));
    let mut sign = Sign::new(Shared(bus.clone()), Address(3), SignType::Max3000Side90x7);

    let page = Page::from_bytes(90, 7, DATA.to_vec()).map_err(|e| format!("{:?}", e))?;
    assert_eq!(PageFlipStyle::Automatic, sign.send_pages(&[page]).map_err(|e| format!("{:?}", e))?);

    bus.borrow_mut().done();

    Ok(())
}

#[test]
fn page_flip() -> Result<(), Box<dyn std::error::Error>> {
    let script = vec![
        ScriptItem {
            expected: Message::QueryState(Address(3)),
            response: Ok(Some(Message::ReportState(Address(3), State::PageLoaded))),
        },
        ScriptItem {
            expected: Message::RequestOperation(Address(3), Operation::ShowLoadedPage),
            response: Ok(Some(Message::AckOperation(Address(3), Operation::ShowLoadedPage))),
        },
        ScriptItem {
            expected: Message::QueryState(Address(3)),
            response: Ok(Some(Message::ReportState(Address(3), State::PageShowInProgress))),
        },
        ScriptItem {
            expected: Message::QueryState(Address(3)),
            response: Ok(Some(Message::ReportState(Address(3), State::PageShowInProgress))),
        },
        ScriptItem {
            expected: Message::QueryState(Address(3)),
            response: Ok(Some(Message::ReportState(Address(3), State::PageShowInProgress))),
        },
        ScriptItem {
            expected: Message::QueryState(Address(3)),
            response: Ok(Some(Message::ReportState(Address(3), State::PageShowInProgress))),
        },
        ScriptItem {
            expected: Message::QueryState(Address(3)),
            response: Ok(Some(Message::ReportState(Address(3), State::PageShown))),
        },
        ScriptItem {
            expected: Message::QueryState(Address(3)),
            response: Ok(Some(Message::ReportState(Address(3), State::PageShown))),
        },
        ScriptItem {
            expected: Message::RequestOperation(Address(3), Operation::LoadNextPage),
            response: Ok(Some(Message::AckOperation(Address(3), Operation::LoadNextPage))),
        },
        ScriptItem {
            expected: Message::QueryState(Address(3)),
            response: Ok(Some(Message::ReportState(Address(3), State::PageLoadInProgress))),
        },
        ScriptItem {
            expected: Message::QueryState(Address(3)),
            response: Ok(Some(Message::ReportState(Address(3), State::PageLoadInProgress))),
        },
        ScriptItem {
            expected: Message::QueryState(Address(3)),
            response: Ok(Some(Message::ReportState(Address(3), State::PageLoadInProgress))),
        },
        ScriptItem {
            expected: Message::QueryState(Address(3)),
            response: Ok(Some(Message::ReportState(Address(3), State::PageLoadInProgress))),
        },
        ScriptItem {
            expected: Message::QueryState(Address(3)),
            response: Ok(Some(Message::ReportState(Address(3), State::PageLoaded))),
        },
        ScriptItem {
            expected: Message::QueryState(Address(3)),
            response: Ok(Some(Message::ReportState(Address(3), State::PageLoaded))),
        },
        ScriptItem {
            expected: Message::RequestOperation(Address(3), Operation::ShowLoadedPage),
            response: Ok(Some(Message::AckOperation(Address(3), Operation::ShowLoadedPage))),
        },
        ScriptItem {
            expected: Message::QueryState(Address(3)),
            response: Ok(Some(Message::ReportState(Address(3), State::PageShowInProgress))),
        },
        ScriptItem {
            expected: Message::QueryState(Address(3)),
            response: Ok(Some(Message::ReportState(Address(3), State::PageShowInProgress))),
        },
        ScriptItem {
            expected: Message::QueryState(Address(3)),
            response: Ok(Some(Message::ReportState(Address(3), State::PageShowInProgress))),
        },
        ScriptItem {
            expected: Message::QueryState(Address(3)),
            response: Ok(Some(Message::ReportState(Address(3), State::PageShowInProgress))),
        },
        ScriptItem {
            expected: Message::QueryState(Address(3)),
            response: Ok(Some(Message::ReportState(Address(3), State::PageShown))),
        },
    ];

    let bus = ScriptedSignBus::new(script.into_iter());
    let bus = Rc::new(RefCell::new(bus));
    let mut sign = Sign::new(Shared(bus.clone()), Address(3), SignType::Max3000Side90x7);

    sign.show_loaded_page().map_err(|e| format!("{:?}", e))?;
    sign.load_next_page().map_err(|e| format!("{:?}", e))?;
    sign.show_loaded_page().map_err(|e| format!("{:?}", e))?;

    bus.borrow_mut().done();

    Ok(())
}

#[test]
fn shut_down() -> Result<(), Box<dyn std::error::Error>> {
    let script = vec![ScriptItem {
        expected: Message::Goodbye(Address(3)),
        response: Ok(None),
    }];

    let bus = ScriptedSignBus::new(script.into_iter());
    let bus = Rc::new(RefCell::new(bus));
    let mut sign = Sign::new(Shared(bus.clone()), Address(3), SignType::Max3000Side90x7);

    sign.shut_down().map_err(|e| format!("{:?}", e))?;

    bus.borrow_mut().done();

    Ok(())
}

#[test]
fn config_needs_reset() -> Result<(), Box<dyn std::error::Error>> {
    let script = vec![
        ScriptItem {
            expected: Message::Hello(Address(3)),
            response: Ok(Some(Message::ReportState(Address(3), State::PageShown))),
        },
        ScriptItem {
            expected: Message::RequestOperation(Address(3), Operation::StartReset),
            response: Ok(Some(Message::AckOperation(Address(3), Operation::StartReset))),
        },
        ScriptItem {
            expected: Message::Hello(Address(3)),
            response: Ok(Some(Message::ReportState(Address(3), State::ReadyToReset))),
        },
        ScriptItem {
            expected: Message::RequestOperation(Address(3), Operation::FinishReset),
            response: Ok(Some(Message::AckOperation(Address(3), Operation::FinishReset))),
        },
        ScriptItem {
            expected: Message::Hello(Address(3)),
            response: Ok(Some(Message::ReportState(Address(3), State::Unconfigured))),
        },
        ScriptItem {
            expected: Message::RequestOperation(Address(3), Operation::ReceiveConfig),
            response: Ok(Some(Message::AckOperation(Address(3), Operation::ReceiveConfig))),
        },
        ScriptItem {
            expected: Message::SendData(Offset(0), Data::try_new(CONFIG.to_vec()).unwrap()),
            response: Ok(None),
        },
        ScriptItem {
            expected: Message::DataChunksSent(ChunkCount(1)),
            response: Ok(None),
        },
        ScriptItem {
            expected: Message::QueryState(Address(3)),
            response: Ok(Some(Message::ReportState(Address(3), State::ConfigReceived))),
        },
    ];

    let bus = ScriptedSignBus::new(script.into_iter());
    let bus = Rc::new(RefCell::new(bus));
    let mut sign = Sign::new(Shared(bus.clone()), Address(3), SignType::Max3000Side90x7);

    sign.configure().map_err(|e| format!("{:?}", e))?;

    bus.borrow_mut().done();

    Ok(())
}

#[test]
fn config_ready_to_reset() -> Result<(), Box<dyn std::error::Error>> {
    let script = vec![
        ScriptItem {
            expected: Message::Hello(Address(3)),
            response: Ok(Some(Message::ReportState(Address(3), State::ReadyToReset))),
        },
        ScriptItem {
            expected: Message::RequestOperation(Address(3), Operation::FinishReset),
            response: Ok(Some(Message::AckOperation(Address(3), Operation::FinishReset))),
        },
        ScriptItem {
            expected: Message::Hello(Address(3)),
            response: Ok(Some(Message::ReportState(Address(3), State::Unconfigured))),
        },
        ScriptItem {
            expected: Message::RequestOperation(Address(3), Operation::ReceiveConfig),
            response: Ok(Some(Message::AckOperation(Address(3), Operation::ReceiveConfig))),
        },
        ScriptItem {
            expected: Message::SendData(Offset(0), Data::try_new(CONFIG.to_vec()).unwrap()),
            response: Ok(None),
        },
        ScriptItem {
            expected: Message::DataChunksSent(ChunkCount(1)),
            response: Ok(None),
        },
        ScriptItem {
            expected: Message::QueryState(Address(3)),
            response: Ok(Some(Message::ReportState(Address(3), State::ConfigReceived))),
        },
    ];

    let bus = ScriptedSignBus::new(script.into_iter());
    let bus = Rc::new(RefCell::new(bus));
    let mut sign = Sign::new(Shared(bus.clone()), Address(3), SignType::Max3000Side90x7);

    sign.configure().map_err(|e| format!("{:?}", e))?;

    bus.borrow_mut().done();

    Ok(())
}

#[test]
fn unexpected_response_error() {
    let script = vec![
        ScriptItem {
            expected: Message::Hello(Address(3)),
            response: Ok(Some(Message::ReportState(Address(3), State::Unconfigured))),
        },
        ScriptItem {
            expected: Message::RequestOperation(Address(3), Operation::ReceiveConfig),
            response: Ok(Some(Message::AckOperation(Address(3), Operation::ReceiveConfig))),
        },
        ScriptItem {
            expected: Message::SendData(Offset(0), Data::try_new(CONFIG.to_vec()).unwrap()),
            response: Ok(None),
        },
        ScriptItem {
            expected: Message::DataChunksSent(ChunkCount(1)),
            response: Ok(None),
        },
        ScriptItem {
            expected: Message::QueryState(Address(3)),
            response: Ok(Some(Message::ReportState(Address(3), State::PageShown))),
        },
    ];

    let bus = ScriptedSignBus::new(script.into_iter());
    let bus = Rc::new(RefCell::new(bus));
    let mut sign = Sign::new(Shared(bus.clone()), Address(3), SignType::Max3000Side90x7);

    let error = sign.configure().unwrap_err();
    assert!(matches!(error, SignError::UnexpectedResponse { .. }));

    bus.borrow_mut().done();
}

#[test]
fn flip_page_unexpected_response_error() {
    let script = vec![ScriptItem {
        expected: Message::QueryState(Address(3)),
        response: Ok(Some(Message::ReportState(Address(3), State::Unconfigured))),
    }];

    let bus = ScriptedSignBus::new(script.into_iter());
    let bus = Rc::new(RefCell::new(bus));
    let mut sign = Sign::new(Shared(bus.clone()), Address(3), SignType::Max3000Side90x7);

    let error = sign.show_loaded_page().unwrap_err();
    assert!(matches!(error, SignError::UnexpectedResponse { .. }));

    bus.borrow_mut().done();
}

#[test]
fn error_propagates() {
    let script = vec![ScriptItem {
        expected: Message::Hello(Address(3)),
        response: Err(BusError::new("oh no!".to_string())),
    }];

    let bus = ScriptedSignBus::new(script.into_iter());
    let bus = Rc::new(RefCell::new(bus));
    let mut sign = Sign::new(Shared(bus.clone()), Address(3), SignType::Max3000Side90x7);

    let error = sign.configure().unwrap_err();
    assert!(matches!(error, SignError::Bus { .. }));
    assert!(matches!(&error, SignError::Bus { source } if source.description() == "oh no!"));

    bus.borrow_mut().done();
}

#[test]
fn create_page() {
    let script = vec![];
    let bus = ScriptedSignBus::new(script.into_iter());
    let bus = Rc::new(RefCell::new(bus));
    let mut sign = Sign::new(Shared(bus.clone()), Address(3), SignType::Max3000Side90x7);

    let page = sign.create_page(PageId(17));
    assert_eq!(PageId(17), page.id());
    assert_eq!(sign.width(), page.width());
    assert_eq!(sign.height(), page.height());

    bus.borrow_mut().done();
}

#[test]
fn configure_if_needed() -> Result<(), Box<dyn std::error::Error>> {
    let script = vec![
        ScriptItem {
            expected: Message::Hello(Address(3)),
            response: Ok(Some(Message::ReportState(Address(3), State::Unconfigured))),
        },
        ScriptItem {
            expected: Message::Hello(Address(3)),
            response: Ok(Some(Message::ReportState(Address(3), State::Unconfigured))),
        },
        ScriptItem {
            expected: Message::RequestOperation(Address(3), Operation::ReceiveConfig),
            response: Ok(Some(Message::AckOperation(Address(3), Operation::ReceiveConfig))),
        },
        ScriptItem {
            expected: Message::SendData(Offset(0), Data::try_new(CONFIG.to_vec()).unwrap()),
            response: Ok(None),
        },
        ScriptItem {
            expected: Message::DataChunksSent(ChunkCount(1)),
            response: Ok(None),
        },
        ScriptItem {
            expected: Message::QueryState(Address(3)),
            response: Ok(Some(Message::ReportState(Address(3), State::ConfigReceived))),
        },
        ScriptItem {
            expected: Message::Hello(Address(3)),
            response: Ok(Some(Message::ReportState(Address(3), State::ConfigReceived))),
        },
    ];

    let bus = ScriptedSignBus::new(script.into_iter());
    let bus = Rc::new(RefCell::new(bus));
    let mut sign = Sign::new(Shared(bus.clone()), Address(3), SignType::Max3000Side90x7);

    sign.configure_if_needed().map_err(|e| format!("{:?}", e))?;
    sign.configure_if_needed().map_err(|e| format!("{:?}", e))?;

    bus.borrow_mut().done();

    Ok(())
}

#[test]
fn auto_flip_page_calls_are_no_ops() {
    let script = vec![
        ScriptItem {
            expected: Message::QueryState(Address(3)),
            response: Ok(Some(Message::ReportState(Address(3), State::ShowingPages))),
        },
        ScriptItem {
            expected: Message::QueryState(Address(3)),
            response: Ok(Some(Message::ReportState(Address(3), State::ShowingPages))),
        },
    ];
    let bus = ScriptedSignBus::new(script.into_iter());
    let bus = Rc::new(RefCell::new(bus));
    let mut sign = Sign::new(Shared(bus.clone()), Address(3), SignType::Max3000Side90x7);
    assert!(sign.show_loaded_page().is_ok());
    assert!(sign.load_next_page().is_ok());
    bus.borrow_mut().done();
}

#[test]
fn reply_from_other_address_is_unexpected() {
    let script = vec![ScriptItem {
        expected: Message::QueryState(Address(3)),
        response: Ok(Some(Message::ReportState(Address(4), State::PageShown))),
    }];
    let bus = ScriptedSignBus::new(script.into_iter());
    let bus = Rc::new(RefCell::new(bus));
    let mut sign = Sign::new(Shared(bus.clone()), Address(3), SignType::Max3000Side90x7);
    let error = sign.show_loaded_page().unwrap_err();
    assert!(matches!(
        &error,
        SignError::UnexpectedResponse { expected, actual }
            if expected == "[Addr 0003] --> ReportState [Page*]"
                && actual == "[Addr 0004] --> ReportState [PageShown]"
    ));
    assert_eq!(flipdot::sign::ErrorKind::UnexpectedResponse, error.kind());
}

#[test]
fn getters_and_bus() {
    let script: Vec<ScriptItem> = vec![];
    let bus = ScriptedSignBus::new(script.into_iter());
    let sign = Sign::new(bus, Address(3), SignType::HorizonDash40x12);
    assert_eq!(Address(3), sign.address());
    assert_eq!(SignType::HorizonDash40x12, sign.sign_type());
    assert_eq!(40, sign.width());
    assert_eq!(12, sign.height());
    let mut bus = sign.into_bus();
    bus.done();
}
