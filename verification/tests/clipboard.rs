//! Pasting.
use std::cell::Cell;
use std::rc::Rc;

use phonebridge::integrations::clipboard_adapter::{
    paste_read, report_typing, run_paste_flow, type_keys, ClipboardAdapter,
};
use phonebridge::integrations::hid_adapter::{HidStatus, IHidController};
use phonebridge::integrations::hid_report::{KeyboardReport, MouseReport, MOD_SHIFT};
use phonebridge::integrations::text_encoder::encode_ascii_text;
use phonebridge::integrations::AdapterError;
use phonebridge::session::state::ControlState;

/// A controller that keeps what it is given and fails where it is told to.
#[derive(Default)]
struct FakeHid {
    keyboard_reports: Vec<KeyboardReport>,
    releases: usize,
    fails_at: Option<usize>,
}

impl FakeHid {
    fn new() -> Self {
        FakeHid::default()
    }
}

impl IHidController for FakeHid {
    fn start_advertising(&mut self) -> Result<(), AdapterError> {
        Ok(())
    }

    fn stop_advertising(&mut self) -> Result<(), AdapterError> {
        Ok(())
    }

    fn release_all(&mut self) {
        self.releases += 1;
    }

    fn send_keyboard(&mut self, report: &KeyboardReport) -> Result<(), AdapterError> {
        self.keyboard_reports.push(*report);
        if self.fails_at == Some(self.keyboard_reports.len()) {
            return Err(AdapterError::Failed("link lost".into()));
        }
        Ok(())
    }

    fn send_mouse(&mut self, _report: &MouseReport) -> Result<(), AdapterError> {
        Ok(())
    }

    fn status(&self) -> HidStatus {
        HidStatus::default()
    }

    fn set_control_state(&mut self, _control: ControlState) {}

    fn set_device_info(
        &mut self,
        _paired: bool,
        _connected: bool,
        _subscribed: bool,
        _name: Option<String>,
    ) {
    }
}

struct FakeClipboard {
    text: String,
}

impl FakeClipboard {
    fn new(text: &str) -> Self {
        Self {
            text: text.to_string(),
        }
    }
}

impl ClipboardAdapter for FakeClipboard {
    fn read_text(&mut self) -> Result<String, AdapterError> {
        Ok(self.text.clone())
    }
}

struct SingleReadClipboard {
    reads: Rc<Cell<usize>>,
}

impl ClipboardAdapter for SingleReadClipboard {
    fn read_text(&mut self) -> Result<String, AdapterError> {
        self.reads.set(self.reads.get() + 1);
        if self.reads.get() != 1 {
            return Err(AdapterError::Failed("clipboard read more than once".into()));
        }
        Ok("paste once".into())
    }
}

struct BrokenClipboard;

impl ClipboardAdapter for BrokenClipboard {
    fn read_text(&mut self) -> Result<String, AdapterError> {
        Err(AdapterError::Failed("读取剪贴板文本失败: nothing".into()))
    }
}

#[test]
fn paste_flow_reads_system_clipboard_once() {
    let reads = Rc::new(Cell::new(0));
    let mut clip = SingleReadClipboard {
        reads: reads.clone(),
    };
    let mut hid = FakeHid::new();
    let result = run_paste_flow(&mut clip, &mut hid, 32 * 1024, 1, 1);
    assert!(result.ok, "一次读取后应完成粘贴：{result:?}");
    assert_eq!(reads.get(), 1);
}

#[test]
fn paste_ascii_sends_paired_reports() {
    let mut clip = FakeClipboard::new("Ab!");
    let mut hid = FakeHid::new();
    let result = run_paste_flow(&mut clip, &mut hid, 32 * 1024, 1, 1);
    assert!(result.ok, "粘贴应成功：{:?}", result);
    assert_eq!(result.char_count, 3);
    // 每字符一对报告 = 6 个键盘报告
    assert_eq!(hid.keyboard_reports.len(), 6);
    // 每对报告 KeyDown 后必须跟 KeyUp（空键数组）
    for pair in hid.keyboard_reports.chunks(2) {
        assert_ne!(pair[0].keys[0], 0, "KeyDown 必须携带 usage");
        assert_eq!(pair[1].keys, [0; 6], "KeyUp 必须是空报告");
    }
}

#[test]
fn shift_chars_carry_shift_modifier() {
    let mut clip = FakeClipboard::new("A");
    let mut hid = FakeHid::new();
    run_paste_flow(&mut clip, &mut hid, 32 * 1024, 1, 1);
    let down = &hid.keyboard_reports[0];
    assert_eq!(down.keys[0], 0x04);
    assert_eq!(down.modifiers, MOD_SHIFT);
}

#[test]
fn unencodable_chars_are_not_sent() {
    let mut clip = FakeClipboard::new("中文é✅");
    let mut hid = FakeHid::new();
    let result = run_paste_flow(&mut clip, &mut hid, 32 * 1024, 1, 1);
    assert!(!result.ok);
    assert_eq!(result.error.as_ref().unwrap().code, "unencodable_chars");
    assert!(!result.unencodable_positions.is_empty());
    assert!(hid.keyboard_reports.is_empty(), "不得发送不可编码内容");
}

#[test]
fn oversized_text_rejected_without_sending() {
    let mut clip = FakeClipboard::new(&"x".repeat(40 * 1024));
    let mut hid = FakeHid::new();
    let result = run_paste_flow(&mut clip, &mut hid, 32 * 1024, 1, 1);
    assert!(!result.ok);
    assert_eq!(result.error.as_ref().unwrap().code, "paste_oversized");
    assert!(hid.keyboard_reports.is_empty());
}

#[test]
fn empty_clipboard_rejected() {
    let mut clip = FakeClipboard::new("");
    let mut hid = FakeHid::new();
    let result = run_paste_flow(&mut clip, &mut hid, 32 * 1024, 1, 1);
    assert!(!result.ok);
    assert_eq!(result.error.as_ref().unwrap().code, "clipboard_empty");
}

#[test]
fn cancelled_paste_sends_nothing() {
    let mut clip = FakeClipboard::new("hello");
    let mut hid = FakeHid::new();
    let result = run_paste_flow(&mut clip, &mut hid, 32 * 1024, 7, 1);
    assert!(!result.ok);
    assert_eq!(result.error.as_ref().unwrap().code, "paste_cancelled");
    assert!(hid.keyboard_reports.is_empty());
}

#[test]
fn a_clipboard_that_cannot_be_read_sends_nothing() {
    let mut hid = FakeHid::new();
    let result = run_paste_flow(&mut BrokenClipboard, &mut hid, 32 * 1024, 1, 1);
    assert!(!result.ok);
    assert!(hid.keyboard_reports.is_empty());
    let error = result.error.unwrap();
    assert_eq!(error.code, "clipboard_read_failed");
    assert_eq!(error.message, "读取剪贴板失败");
}

#[test]
fn a_paste_that_breaks_off_is_reported() {
    let mut clip = FakeClipboard::new("abc");
    let mut hid = FakeHid::new();
    hid.fails_at = Some(3);
    let result = run_paste_flow(&mut clip, &mut hid, 32 * 1024, 1, 1);
    assert!(!result.ok);
    assert!(result.truncated);
    let error = result.error.unwrap();
    assert_eq!(error.code, "adapter_failed");
    assert_eq!(error.message, "发送中断（已发送 1 字符）：操作失败：link lost");
    assert_eq!(hid.keyboard_reports.len(), 3);
    assert_eq!(hid.releases, 0);
}

#[test]
fn a_key_that_cannot_be_lifted_is_released() {
    let mut clip = FakeClipboard::new("abc");
    let mut hid = FakeHid::new();
    hid.fails_at = Some(4);
    let result = run_paste_flow(&mut clip, &mut hid, 32 * 1024, 1, 1);
    assert!(result.ok);
    assert_eq!(hid.keyboard_reports.len(), 6);
    assert_eq!(hid.releases, 1);
}

#[test]
fn typing_counts_the_keys_that_went_out() {
    let keys = encode_ascii_text("abc").chars;
    let mut hid = FakeHid::new();
    let (sent, failure) = type_keys(&mut hid, &keys);
    assert_eq!(sent, 3);
    assert!(failure.is_none());
    assert_eq!(hid.keyboard_reports.len(), 6);

    let mut hid = FakeHid::new();
    hid.fails_at = Some(5);
    let (sent, failure) = type_keys(&mut hid, &keys);
    assert_eq!(sent, 2);
    assert_eq!(failure.unwrap().message(), "操作失败：link lost");
    assert_eq!(hid.keyboard_reports.len(), 5);
}

#[test]
fn what_was_typed_is_reported() {
    let whole = report_typing(3, 4, 3, &None);
    assert!(whole.ok && !whole.truncated);
    assert_eq!((whole.char_count, whole.byte_count), (3, 4));
    let broken = report_typing(3, 4, 2, &Some(AdapterError::Failed("gone".into())));
    assert!(!broken.ok && broken.truncated);
    assert_eq!(
        broken.error.unwrap().message,
        "发送中断（已发送 2 字符）：操作失败：gone"
    );
}

#[test]
fn what_was_read_is_pasted() {
    let mut hid = FakeHid::new();
    let result = paste_read(&Ok("Ab!".into()), &mut hid, 32, 1, 1);
    assert!(result.ok);
    assert_eq!(hid.keyboard_reports.len(), 6);
    let result = paste_read(&Err(AdapterError::Failed("no".into())), &mut hid, 32, 1, 1);
    assert_eq!(result.error.unwrap().code, "clipboard_read_failed");
    assert_eq!(hid.keyboard_reports.len(), 6);
}

#[test]
fn a_cancelled_paste_does_not_read_the_clipboard() {
    let reads = Rc::new(Cell::new(0));
    let mut clip = SingleReadClipboard {
        reads: reads.clone(),
    };
    let mut hid = FakeHid::new();
    let result = run_paste_flow(&mut clip, &mut hid, 32 * 1024, 7, 1);
    assert_eq!(result.error.unwrap().code, "paste_cancelled");
    assert_eq!(reads.get(), 0);
}
