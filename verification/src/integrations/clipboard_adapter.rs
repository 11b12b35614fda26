//! Pasting: the plain text of the clipboard, typed on the phone.
//!
//! The clipboard is read once, when the user asks for it. A text that is too long or holds a
//! character that no key types is refused as a whole; it is never cut in silence.
use vstd::prelude::*;

use crate::integrations::hid_adapter;
use crate::integrations::hid_adapter::{HidCall, HidReport, IHidController};
use crate::integrations::hid_report;
use crate::integrations::hid_report::{key_down_up, EncodedChar, MOD_SHIFT};
use crate::integrations::text_encoder;
use crate::integrations::text_encoder::encode_ascii_text;
use crate::integrations::AdapterError;
use crate::text;

verus! {

/// Something that has a clipboard.
pub trait ClipboardAdapter {
    /// Everything that was read from it, in order. Only proofs speak of it.
    open spec fn reads(&self) -> Seq<Result<Seq<char>, AdapterError<Seq<char>>>> {
        Seq::empty()
    }

    fn read_text(&mut self) -> (r: Result<String, AdapterError>)
        ensures
            final(self).reads() == old(self).reads().push(read_content(r)),
    ;
}

/// The content of what was read from a clipboard.
pub open spec fn read_content(r: Result<String, AdapterError>) -> Result<
    Seq<char>,
    AdapterError<Seq<char>>,
> {
    match r {
        Ok(t) => Ok(t@),
        Err(e) => Err(e@),
    }
}

/// Why a paste did not succeed.
#[derive(Debug, PartialEq, Eq)]
pub struct PasteError<T = String> {
    pub code: T,
    pub message: T,
}

impl View for PasteError<String> {
    type V = PasteError<Seq<char>>;

    open spec fn view(&self) -> PasteError<Seq<char>> {
        PasteError { code: self.code@, message: self.message@ }
    }
}

impl Clone for PasteError<String> {
    fn clone(&self) -> (r: Self)
        ensures
            r@ == self@,
    {
        PasteError {
            code: text::own(self.code.as_str()),
            message: text::own(self.message.as_str()),
        }
    }
}

/// What came of a paste.
#[derive(Debug, PartialEq, Eq)]
pub struct PasteResult {
    pub ok: bool,
    pub char_count: usize,
    pub byte_count: usize,
    /// Whether only a part of the text was sent.
    pub truncated: bool,
    pub unencodable_positions: Vec<u32>,
    pub error: Option<PasteError>,
}

/// The contents of what came of a paste.
pub struct PasteOutcome {
    pub ok: bool,
    pub char_count: nat,
    pub byte_count: nat,
    pub truncated: bool,
    pub unencodable_positions: Seq<nat>,
    pub error: Option<PasteError<Seq<char>>>,
}

impl View for PasteResult {
    type V = PasteOutcome;

    open spec fn view(&self) -> PasteOutcome {
        PasteOutcome {
            ok: self.ok,
            char_count: self.char_count as nat,
            byte_count: self.byte_count as nat,
            truncated: self.truncated,
            unencodable_positions: text_encoder::numbers(self.unencodable_positions@),
            error: match self.error {
                Some(e) => Some(e@),
                None => None,
            },
        }
    }
}

impl Clone for PasteResult {
    fn clone(&self) -> (r: Self)
        ensures
            r@ == self@,
    {
        PasteResult {
            ok: self.ok,
            char_count: self.char_count,
            byte_count: self.byte_count,
            truncated: self.truncated,
            unencodable_positions: self.unencodable_positions.clone(),
            error: match &self.error {
                Some(e) => Some(e.clone()),
                None => None,
            },
        }
    }
}

/// A paste that was refused before anything was sent.
pub open spec fn refused(code: Seq<char>, message: Seq<char>) -> PasteOutcome {
    PasteOutcome {
        ok: false,
        char_count: 0,
        byte_count: 0,
        truncated: false,
        unencodable_positions: Seq::empty(),
        error: Some(PasteError { code, message }),
    }
}

/// A paste of which everything was sent.
pub open spec fn sent_whole(char_count: nat, byte_count: nat) -> PasteOutcome {
    PasteOutcome {
        ok: true,
        char_count,
        byte_count,
        truncated: false,
        unencodable_positions: Seq::empty(),
        error: None,
    }
}

impl PasteResult {
    /// A paste that was refused before anything was sent.
    pub fn rejected(code: &str, message: &str) -> (r: Self)
        ensures
            r@ == refused(code@, message@),
    {
        let r = PasteResult {
            ok: false,
            char_count: 0,
            byte_count: 0,
            truncated: false,
            unencodable_positions: Vec::new(),
            error: Some(PasteError { code: text::own(code), message: text::own(message) }),
        };
        assert(r@.unencodable_positions =~= Seq::<nat>::empty());
        r
    }

    /// A paste of which everything was sent.
    pub fn complete(char_count: usize, byte_count: usize) -> (r: Self)
        ensures
            r@ == sent_whole(char_count as nat, byte_count as nat),
    {
        let r = PasteResult {
            ok: true,
            char_count,
            byte_count,
            truncated: false,
            unencodable_positions: Vec::new(),
            error: None,
        };
        assert(r@.unencodable_positions =~= Seq::<nat>::empty());
        r
    }

    /// A paste that broke off after `sent` characters.
    pub fn interrupted(char_count: usize, byte_count: usize, sent: usize, why: &AdapterError) -> (r:
        Self)
        ensures
            r@ == broken_off(char_count as nat, byte_count as nat, sent as nat, why@),
    {
        let r = PasteResult {
            ok: false,
            char_count,
            byte_count,
            truncated: true,
            unencodable_positions: Vec::new(),
            error: Some(
                PasteError {
                    code: text::own(why.code()),
                    message: text::cat4(
                        "发送中断（已发送 ",
                        text::decimal(sent as u64).as_str(),
                        " 字符）：",
                        why.message().as_str(),
                    ),
                },
            ),
        };
        assert(r@.unencodable_positions =~= Seq::<nat>::empty());
        r
    }
}

/// A paste that broke off after `sent` characters.
pub open spec fn broken_off(
    char_count: nat,
    byte_count: nat,
    sent: nat,
    why: AdapterError<Seq<char>>,
) -> PasteOutcome {
    PasteOutcome {
        ok: false,
        char_count,
        byte_count,
        truncated: true,
        unencodable_positions: Seq::empty(),
        error: Some(
            PasteError {
                code: why.code_text(),
                message: "发送中断（已发送 "@ + text::dec(sent) + " 字符）："@
                    + why.message_text(),
            },
        ),
    }
}

/// Why a text is not sent at all, if it is not: control was stopped meanwhile, the text is
/// empty or too long, or it holds a character that no key types.
pub open spec fn objection(s: Seq<char>, max_bytes: nat, token: u64, current_token: u64) -> Option<
    PasteOutcome,
> {
    let bad = text_encoder::untyped_positions(s);
    if token != current_token {
        Some(refused("paste_cancelled"@, "控制已停止或已释放输入，粘贴已取消"@))
    } else if s.len() == 0 {
        Some(refused("clipboard_empty"@, "剪贴板中没有可粘贴的纯文本"@))
    } else if text::byte_length(s) > max_bytes {
        Some(
            refused(
                "paste_oversized"@,
                "剪贴板文本 "@ + text::dec(text::byte_length(s)) + " 字节超过限制 "@
                    + text::dec(max_bytes) + " 字节；MVP 不静默截断，请手动分段"@,
            ),
        )
    } else if bad.len() > 0 {
        Some(
            PasteOutcome {
                ok: false,
                char_count: text_encoder::utf16_length(s),
                byte_count: text::byte_length(s),
                truncated: false,
                unencodable_positions: bad,
                error: Some(
                    PasteError {
                        code: "unencodable_chars"@,
                        message: "有 "@ + text::dec(bad.len())
                            + " 个字符（中文、Emoji 或其他 Unicode）无法通过当前 BLE HID 键盘布局表达，未发送；中英文混合文本请使用 iOS USB/WDA 精确控制"@,
                    },
                ),
            },
        )
    } else {
        None
    }
}

/// The modifiers with which a character is typed.
pub open spec fn modifiers_of(c: EncodedChar) -> u8 {
    if c.shift {
        MOD_SHIFT
    } else {
        0
    }
}

/// The report that presses the key of a character.
pub open spec fn press(c: EncodedChar) -> hid_report::KeyboardReport {
    hid_report::pressed(c.usage, modifiers_of(c))
}

/// The calls for one character that is typed: its key is pressed and then lifted; `lift` is why
/// lifting it could not be sent, and then everything is released.
pub open spec fn stroke(c: EncodedChar, lift: Option<AdapterError<Seq<char>>>) -> Seq<HidCall> {
    let pair = seq![
        hid_adapter::keyboard_call(press(c), None),
        hid_adapter::keyboard_call(hid_report::released(modifiers_of(c)), lift),
    ];
    if lift is Some {
        pair.push(hid_adapter::release_call())
    } else {
        pair
    }
}

/// The calls for a sequence of characters that are typed; `lifts` says for each one why lifting
/// its key could not be sent.
pub open spec fn strokes(
    chars: Seq<EncodedChar>,
    lifts: Seq<Option<AdapterError<Seq<char>>>>,
) -> Seq<HidCall>
    decreases chars.len(),
{
    if chars.len() == 0 {
        Seq::empty()
    } else {
        strokes(chars.drop_last(), lifts.drop_last()) + stroke(chars.last(), lifts.last())
    }
}

/// Checks a text before it is sent and encodes it.
pub fn prepare_paste(text: &str, max_bytes: usize, token: u64, current_token: u64) -> (r: Result<
    text_encoder::TextEncoding,
    PasteResult,
>)
    requires
        max_bytes <= u32::MAX || text_encoder::utf16_length(text@) <= u32::MAX,
    ensures
        match r {
            Ok(enc) => objection(text@, max_bytes as nat, token, current_token) is None
                && enc.chars@ == text_encoder::keys_of(text@) && enc.char_count
                == text_encoder::utf16_length(text@) && enc.byte_count
                == crate::text::byte_length(text@),
            Err(p) => objection(text@, max_bytes as nat, token, current_token) == Some(p@),
        },
{
    if token != current_token {
        return Err(
            PasteResult::rejected("paste_cancelled", "控制已停止或已释放输入，粘贴已取消"),
        );
    }
    if text.is_empty() {
        return Err(PasteResult::rejected("clipboard_empty", "剪贴板中没有可粘贴的纯文本"));
    }
    let n: usize = crate::text::byte_len(text);
    if n > max_bytes {
        let message = crate::text::cat5(
            "剪贴板文本 ",
            crate::text::decimal(n as u64).as_str(),
            " 字节超过限制 ",
            crate::text::decimal(max_bytes as u64).as_str(),
            " 字节；MVP 不静默截断，请手动分段",
        );
        return Err(PasteResult::rejected("paste_oversized", message.as_str()));
    }
    proof {
        text_encoder::lemma_utf16_within_bytes(text@);
    }
    let enc = encode_ascii_text(text);
    assert(text_encoder::numbers(enc.unencodable_positions@).len()
        == enc.unencodable_positions@.len());
    if enc.unencodable_positions.len() > 0 {
        let count = crate::text::decimal(enc.unencodable_positions.len() as u64);
        return Err(
            PasteResult {
                ok: false,
                char_count: enc.char_count,
                byte_count: enc.byte_count,
                truncated: false,
                unencodable_positions: enc.unencodable_positions,
                error: Some(
                    PasteError {
                        code: crate::text::own("unencodable_chars"),
                        message: crate::text::cat3(
                            "有 ",
                            count.as_str(),
                            " 个字符（中文、Emoji 或其他 Unicode）无法通过当前 BLE HID 键盘布局表达，未发送；中英文混合文本请使用 iOS USB/WDA 精确控制",
                        ),
                    },
                ),
            },
        );
    }
    Ok(enc)
}

/// The first `sent` of the keys `chars` were typed. Then either there were no more, or the next
/// key could not be pressed, which `failure` says, and nothing was sent after that.
pub open spec fn typed_until(
    before: Seq<HidCall>,
    after: Seq<HidCall>,
    chars: Seq<EncodedChar>,
    sent: nat,
    lifts: Seq<Option<AdapterError<Seq<char>>>>,
    failure: Option<AdapterError<Seq<char>>>,
) -> bool {
    &&& sent <= chars.len()
    &&& lifts.len() == sent
    &&& failure is None <==> sent == chars.len()
    &&& after == before + strokes(chars.take(sent as int), lifts) + (match failure {
        None => Seq::empty(),
        Some(why) => seq![hid_adapter::keyboard_call(press(chars[sent as int]), Some(why))],
    })
}

/// What is reported of a paste of which `sent` keys were typed before one could not be pressed;
/// `failure` is why, and nothing where all of them were typed.
pub open spec fn typing_outcome(
    char_count: nat,
    byte_count: nat,
    sent: nat,
    failure: Option<AdapterError<Seq<char>>>,
) -> PasteOutcome {
    match failure {
        None => sent_whole(char_count, byte_count),
        Some(why) => broken_off(char_count, byte_count, sent, why),
    }
}

/// What a controller has been given after `before`, and what is reported, when a text of the
/// keys `chars` is typed: the whole text where every key could be pressed, else the error of the
/// first that could not.
pub open spec fn typed(
    before: Seq<HidCall>,
    after: Seq<HidCall>,
    chars: Seq<EncodedChar>,
    char_count: nat,
    byte_count: nat,
    result: PasteOutcome,
) -> bool {
    exists|
        sent: nat,
        lifts: Seq<Option<AdapterError<Seq<char>>>>,
        failure: Option<AdapterError<Seq<char>>>,
    |
        #[trigger] typed_until(before, after, chars, sent, lifts, failure) && result
            == typing_outcome(char_count, byte_count, sent, failure)
}

pub open spec fn error_view(e: Option<AdapterError>) -> Option<AdapterError<Seq<char>>> {
    match e {
        Some(e) => Some(e@),
        None => None,
    }
}

/// Types keys one after the other, each one pressed and lifted before the next; says how many
/// were typed, and why the next one could not be pressed.
pub fn type_keys<H: IHidController>(hid: &mut H, chars: &Vec<EncodedChar>) -> (r: (
    usize,
    Option<AdapterError>,
))
    ensures
        exists|lifts: Seq<Option<AdapterError<Seq<char>>>>| #[trigger]
            typed_until(
                old(hid).given(),
                final(hid).given(),
                chars@,
                r.0 as nat,
                lifts,
                error_view(r.1),
            ),
{
    let ghost start = hid.given();
    let ghost mut lifts = Seq::<Option<AdapterError<Seq<char>>>>::empty();
    let mut i: usize = 0;
    assert(chars@.take(0) =~= Seq::<EncodedChar>::empty());
    assert(hid.given() =~= start + strokes(chars@.take(0), lifts));
    while i < chars.len()
        invariant
            i <= chars@.len(),
            start == old(hid).given(),
            lifts.len() == i,
            hid.given() == start + strokes(chars@.take(i as int), lifts),
        decreases chars@.len() - i,
    {
        let c = chars[i];
        let modifiers: u8 = if c.shift {
            MOD_SHIFT
        } else {
            0
        };
        let pair = key_down_up(c.usage, modifiers);
        let ghost g0 = hid.given();
        proof {
            let next = chars@.take(i + 1);
            assert(next.drop_last() =~= chars@.take(i as int));
            assert(next.last() == c);
            assert(pair@[0] == press(c));
            assert(pair@[1] == hid_report::released(modifiers));
        }
        match hid.send_keyboard(&pair[0]) {
            Ok(()) => {},
            Err(e) => {
                assert(hid.given() =~= g0 + seq![
                    hid_adapter::keyboard_call(press(c), Some(e@)),
                ]);
                let stopped = (i, Some(e));
                assert(error_view(stopped.1) == Some(e@));
                assert(typed_until(
                    start,
                    hid.given(),
                    chars@,
                    stopped.0 as nat,
                    lifts,
                    error_view(stopped.1),
                ));
                return stopped;
            },
        }
        match hid.send_keyboard(&pair[1]) {
            Ok(()) => {
                proof {
                    let next = lifts.push(None);
                    assert(next.drop_last() =~= lifts);
                    assert(hid.given() =~= g0 + stroke(c, None));
                    assert(hid.given() =~= start + (strokes(chars@.take(i as int), lifts)
                        + stroke(c, None)));
                    lifts = next;
                }
            },
            Err(e) => {
                hid.release_all();
                proof {
                    let next = lifts.push(Some(e@));
                    assert(next.drop_last() =~= lifts);
                    assert(hid.given() =~= g0 + stroke(c, Some(e@)));
                    assert(hid.given() =~= start + (strokes(chars@.take(i as int), lifts)
                        + stroke(c, Some(e@))));
                    lifts = next;
                }
            },
        }
        i = i + 1;
    }
    assert(hid.given() =~= start + strokes(chars@.take(i as int), lifts) + Seq::empty());
    let whole = (i, None);
    assert(error_view(whole.1) is None);
    assert(typed_until(start, hid.given(), chars@, whole.0 as nat, lifts, error_view(whole.1)));
    whole
}

/// Reports a paste of which `sent` keys were typed before one could not be pressed; `failure` is
/// why, and nothing where all of them were typed.
pub fn report_typing(
    char_count: usize,
    byte_count: usize,
    sent: usize,
    failure: &Option<AdapterError>,
) -> (r: PasteResult)
    ensures
        r@ == typing_outcome(
            char_count as nat,
            byte_count as nat,
            sent as nat,
            error_view(*failure),
        ),
{
    match failure {
        None => PasteResult::complete(char_count, byte_count),
        Some(e) => PasteResult::interrupted(char_count, byte_count, sent, e),
    }
}

/// Pastes a text: checks it, encodes it and types it. Positions are 32-bit numbers, which
/// bounds the text, or `max_bytes`.
pub fn run_paste_text_flow<H: IHidController>(
    text: &str,
    hid: &mut H,
    max_bytes: usize,
    token: u64,
    current_token: u64,
) -> (r: PasteResult)
    requires
        max_bytes <= u32::MAX || text_encoder::utf16_length(text@) <= u32::MAX,
    ensures
        pasted(
            text@,
            max_bytes as nat,
            token,
            current_token,
            old(hid).given(),
            final(hid).given(),
            r@,
        ),
        objection(text@, max_bytes as nat, token, current_token) is None ==> (r.ok <==> forall|
            i: int,
        |
            old(hid).given().len() <= i < final(hid).given().len() ==> !press_failed(
                #[trigger] final(hid).given()[i],
            )),
{
    let ghost before = hid.given();
    let r = match prepare_paste(text, max_bytes, token, current_token) {
        Err(p) => p,
        Ok(enc) => {
            let (sent, failure) = type_keys(hid, &enc.chars);
            report_typing(enc.char_count, enc.byte_count, sent, &failure)
        },
    };
    proof {
        paste_is_all_or_reported(
            text@,
            max_bytes as nat,
            token,
            current_token,
            before,
            hid.given(),
            r@,
        );
    }
    r
}

/// Pastes what was read from the clipboard.
pub fn paste_read<H: IHidController>(
    read: &Result<String, AdapterError>,
    hid: &mut H,
    max_bytes: usize,
    token: u64,
    current_token: u64,
) -> (r: PasteResult)
    requires
        max_bytes <= u32::MAX || (read matches Ok(t) ==> text_encoder::utf16_length(t@)
            <= u32::MAX),
    ensures
        pasted_read(
            read_content(*read),
            max_bytes as nat,
            token,
            current_token,
            old(hid).given(),
            final(hid).given(),
            r@,
        ),
{
    match read {
        Ok(t) => run_paste_text_flow(t.as_str(), hid, max_bytes, token, current_token),
        Err(_) => PasteResult::rejected("clipboard_read_failed", "读取剪贴板失败"),
    }
}

/// Pastes the text of the clipboard. It is read once, and not at all when control has been
/// stopped meanwhile. How long that text is is not known before, so that `max_bytes` has to keep
/// its positions within 32 bits.
pub fn run_paste_flow<C: ClipboardAdapter, H: IHidController>(
    clipboard: &mut C,
    hid: &mut H,
    max_bytes: usize,
    token: u64,
    current_token: u64,
) -> (r: PasteResult)
    requires
        max_bytes <= u32::MAX,
    ensures
        token != current_token ==> r@ == refused(
            "paste_cancelled"@,
            "控制已停止或已释放输入，粘贴已取消"@,
        ) && final(hid).given() == old(hid).given() && final(clipboard).reads() == old(
            clipboard,
        ).reads(),
        token == current_token ==> final(clipboard).reads() == old(clipboard).reads().push(
            final(clipboard).reads().last(),
        ) && pasted_read(
            final(clipboard).reads().last(),
            max_bytes as nat,
            token,
            current_token,
            old(hid).given(),
            final(hid).given(),
            r@,
        ),
{
    if token != current_token {
        return PasteResult::rejected(
            "paste_cancelled",
            "控制已停止或已释放输入，粘贴已取消",
        );
    }
    let read = clipboard.read_text();
    paste_read(&read, hid, max_bytes, token, current_token)
}

/// What came of pasting `s`.
pub open spec fn pasted(
    s: Seq<char>,
    max_bytes: nat,
    token: u64,
    current_token: u64,
    before: Seq<HidCall>,
    after: Seq<HidCall>,
    result: PasteOutcome,
) -> bool {
    match objection(s, max_bytes, token, current_token) {
        Some(p) => result == p && after == before,
        None => typed(
            before,
            after,
            text_encoder::keys_of(s),
            text_encoder::utf16_length(s),
            text::byte_length(s),
            result,
        ),
    }
}

/// What came of pasting what was read from the clipboard.
pub open spec fn pasted_read(
    read: Result<Seq<char>, AdapterError<Seq<char>>>,
    max_bytes: nat,
    token: u64,
    current_token: u64,
    before: Seq<HidCall>,
    after: Seq<HidCall>,
    result: PasteOutcome,
) -> bool {
    match read {
        Ok(t) => pasted(t, max_bytes, token, current_token, before, after, result),
        Err(_) => result == refused("clipboard_read_failed"@, "读取剪贴板失败"@) && after
            == before,
    }
}

/// Whether a call was to press a key, which could not be sent.
pub open spec fn press_failed(call: HidCall) -> bool {
    call.failure is Some && (call.report matches HidReport::Keyboard(k) && k.keys[0] != 0)
}

proof fn lemma_strokes_press(chars: Seq<EncodedChar>, lifts: Seq<Option<AdapterError<Seq<char>>>>)
    ensures
        forall|i: int|
            0 <= i < strokes(chars, lifts).len() ==> !press_failed(
                #[trigger] strokes(chars, lifts)[i],
            ),
    decreases chars.len(),
{
    if chars.len() > 0 {
        lemma_strokes_press(chars.drop_last(), lifts.drop_last());
        let head = strokes(chars.drop_last(), lifts.drop_last());
        let c = chars.last();
        assert(hid_report::released(modifiers_of(c)).keys[0] == 0);
        assert forall|i: int| 0 <= i < strokes(chars, lifts).len() implies !press_failed(
            #[trigger] strokes(chars, lifts)[i],
        ) by {
            if i >= head.len() {
                assert(strokes(chars, lifts)[i] == stroke(c, lifts.last())[i - head.len()]);
            } else {
                assert(strokes(chars, lifts)[i] == head[i]);
            }
        }
    }
}

/// A refused paste sends nothing. Any other paste is reported as complete exactly where every
/// key that it pressed was sent, and then a key was pressed and lifted for each character. One
/// that was not complete ends with the key that could not be pressed and says why, and how many
/// characters went before it.
pub proof fn paste_is_all_or_reported(
    s: Seq<char>,
    max_bytes: nat,
    token: u64,
    current_token: u64,
    before: Seq<HidCall>,
    after: Seq<HidCall>,
    result: PasteOutcome,
)
    requires
        pasted(s, max_bytes, token, current_token, before, after, result),
    ensures
        objection(s, max_bytes, token, current_token) is Some ==> after == before && !result.ok,
        objection(s, max_bytes, token, current_token) is None ==> {
            &&& after.len() > before.len()
            &&& after.take(before.len() as int) == before
            &&& result.ok <==> forall|i: int|
                before.len() <= i < after.len() ==> !press_failed(#[trigger] after[i])
            &&& !result.ok ==> press_failed(after.last()) && exists|sent: nat|
                sent < s.len() && result == #[trigger] broken_off(
                    text_encoder::utf16_length(s),
                    text::byte_length(s),
                    sent,
                    after.last().failure->0,
                )
        },
        result.ok ==> text_encoder::keys_of(s).len() == s.len() && exists|
            lifts: Seq<Option<AdapterError<Seq<char>>>>,
        |
            lifts.len() == s.len() && after == before + #[trigger] strokes(
                text_encoder::keys_of(s),
                lifts,
            ),
        !result.ok ==> result.error is Some,
        result.truncated ==> !result.ok,
{
    text_encoder::encoding_loses_nothing(s);
    let chars = text_encoder::keys_of(s);
    if objection(s, max_bytes, token, current_token) is None {
        text_encoder::typed_text_keeps_its_order(s);
        let (sent, lifts, failure) = choose|
            sent: nat,
            lifts: Seq<Option<AdapterError<Seq<char>>>>,
            failure: Option<AdapterError<Seq<char>>>,
        |
            #[trigger] typed_until(before, after, chars, sent, lifts, failure) && result
                == typing_outcome(
                text_encoder::utf16_length(s),
                text::byte_length(s),
                sent,
                failure,
            );
        let done = chars.take(sent as int);
        let calls = strokes(done, lifts);
        lemma_strokes_press(done, lifts);
        assert(after.take(before.len() as int) =~= before);
        assert forall|i: int| before.len() <= i < before.len() + calls.len() implies !press_failed(
            #[trigger] after[i],
        ) by {
            assert(after[i] == calls[i - before.len()]);
        }
        match failure {
            None => {
                assert(done =~= chars);
                assert(after =~= before + calls);
                assert(stroke(chars.last(), lifts.last()).len() > 0);
            },
            Some(why) => {
                let c = chars[sent as int];
                assert(text_encoder::encoded(s[sent as int]) == Some(c));
                hid_report::typed_characters_are_ascii(s[sent as int]);
                assert(after.last() == hid_adapter::keyboard_call(press(c), Some(why)));
                assert(press(c).keys[0] == c.usage);
                assert(press_failed(after[after.len() - 1]));
                assert(result == broken_off(
                    text_encoder::utf16_length(s),
                    text::byte_length(s),
                    sent,
                    after.last().failure->0,
                ));
            },
        }
    }
}

/// Every key that a paste presses is lifted right after, before the next one is pressed. Where
/// that could not be sent, everything is released at once.
pub proof fn keys_are_released(
    chars: Seq<EncodedChar>,
    lifts: Seq<Option<AdapterError<Seq<char>>>>,
    i: int,
)
    requires
        lifts.len() == chars.len(),
        0 <= i < strokes(chars, lifts).len(),
        strokes(chars, lifts)[i].report matches HidReport::Keyboard(k) && k.keys[0] != 0,
    ensures
        i + 1 < strokes(chars, lifts).len(),
        strokes(chars, lifts)[i + 1].report matches HidReport::Keyboard(k) && k.keys == [
            0u8,
            0,
            0,
            0,
            0,
            0,
        ],
        strokes(chars, lifts)[i + 1].failure is Some ==> i + 2 < strokes(chars, lifts).len()
            && strokes(chars, lifts)[i + 2] == hid_adapter::release_call(),
    decreases chars.len(),
{
    if chars.len() > 0 {
        let head = strokes(chars.drop_last(), lifts.drop_last());
        if i < head.len() {
            keys_are_released(chars.drop_last(), lifts.drop_last(), i);
        }
    }
}

/// What a phone with a US keyboard layout shows for the reports that it gets: a character for
/// each report that holds a key down.
pub open spec fn shown_by(calls: Seq<HidCall>) -> Seq<char>
    decreases calls.len(),
{
    if calls.len() == 0 {
        Seq::empty()
    } else {
        let rest = shown_by(calls.drop_last());
        match calls.last().report {
            HidReport::Keyboard(k) => if k.keys[0] != 0 {
                rest.push(hid_report::us_layout(k.keys[0], (k.modifiers / 2) % 2 == 1)->0)
            } else {
                rest
            },
            _ => rest,
        }
    }
}

proof fn lemma_shown_add(a: Seq<HidCall>, b: Seq<HidCall>)
    ensures
        shown_by(a + b) == shown_by(a) + shown_by(b),
    decreases b.len(),
{
    if b.len() == 0 {
        assert(a + b =~= a);
        assert(shown_by(a) + shown_by(b) =~= shown_by(a));
    } else {
        assert((a + b).drop_last() =~= a + b.drop_last());
        lemma_shown_add(a, b.drop_last());
        assert(shown_by(a + b) =~= shown_by(a) + shown_by(b));
    }
}

/// The reports that type keys show what the keys print, whether or not lifting a key could be
/// sent.
pub proof fn strokes_show_what_the_keys_print(
    chars: Seq<EncodedChar>,
    lifts: Seq<Option<AdapterError<Seq<char>>>>,
)
    requires
        lifts.len() == chars.len(),
        forall|i: int| 0 <= i < chars.len() ==> (#[trigger] chars[i]).usage != 0,
    ensures
        shown_by(strokes(chars, lifts)) == text_encoder::printed(chars),
    decreases chars.len(),
{
    if chars.len() == 0 {
        assert(text_encoder::printed(chars) =~= Seq::<char>::empty());
    } else {
        let front = chars.drop_last();
        let c = chars.last();
        let lift = lifts.last();
        assert(c == chars[chars.len() - 1]);
        assert forall|i: int| 0 <= i < front.len() implies (#[trigger] front[i]).usage != 0 by {
            assert(front[i] == chars[i]);
        }
        strokes_show_what_the_keys_print(front, lifts.drop_last());
        let head = strokes(front, lifts.drop_last());
        lemma_shown_add(head, stroke(c, lift));
        let one = seq![hid_adapter::keyboard_call(press(c), None)];
        let two = one.push(
            hid_adapter::keyboard_call(hid_report::released(modifiers_of(c)), lift),
        );
        let three = two.push(hid_adapter::release_call());
        reveal_with_fuel(shown_by, 2);
        assert(press(c).keys[0] == c.usage);
        assert(hid_report::released(modifiers_of(c)).keys[0] == 0);
        assert(one.drop_last() =~= Seq::<HidCall>::empty());
        assert(two.drop_last() =~= one);
        assert(three.drop_last() =~= two);
        assert((MOD_SHIFT / 2) % 2 == 1);
        assert(shown_by(one) =~= seq![hid_report::us_layout(c.usage, c.shift)->0]);
        assert(shown_by(two) == shown_by(one));
        assert(shown_by(three) == shown_by(two));
        assert(stroke(c, lift) =~= if lift is Some {
            three
        } else {
            two
        });
        assert(text_encoder::printed(chars) =~= text_encoder::printed(front).push(
            hid_report::us_layout(c.usage, c.shift)->0,
        ));
        assert(shown_by(strokes(chars, lifts)) =~= text_encoder::printed(chars));
    }
}

/// A paste that is complete shows the text on the phone.
pub proof fn complete_pastes_show_the_text(
    s: Seq<char>,
    max_bytes: nat,
    token: u64,
    current_token: u64,
    before: Seq<HidCall>,
    after: Seq<HidCall>,
    result: PasteOutcome,
)
    requires
        pasted(s, max_bytes, token, current_token, before, after, result),
        result.ok,
        forall|i: int| 0 <= i < s.len() ==> #[trigger] s[i] != '\r',
    ensures
        shown_by(after) == shown_by(before) + s,
{
    paste_is_all_or_reported(s, max_bytes, token, current_token, before, after, result);
    let keys = text_encoder::keys_of(s);
    let lifts = choose|lifts: Seq<Option<AdapterError<Seq<char>>>>|
        lifts.len() == s.len() && after == before + #[trigger] strokes(keys, lifts);
    lemma_shown_add(before, strokes(keys, lifts));
    objections_come_in_order(s, max_bytes, token, current_token);
    text_encoder::typed_text_keeps_its_order(s);
    assert forall|i: int| 0 <= i < keys.len() implies (#[trigger] keys[i]).usage != 0 by {
        assert(text_encoder::encoded(s[i]) == Some(keys[i]));
        hid_report::typed_characters_are_ascii(s[i]);
    }
    strokes_show_what_the_keys_print(keys, lifts);
    text_encoder::typed_text_reads_back(s);
}

/// A text is sent exactly where control still stands, it holds something, it is no longer than
/// the limit and the keyboard has every character of it; otherwise the first of these that fails
/// is the reason, and nothing counts as sent.
pub proof fn objections_come_in_order(s: Seq<char>, max_bytes: nat, token: u64, current_token: u64)
    ensures
        ({
            let o = objection(s, max_bytes, token, current_token);
            let typable = forall|k: int|
                0 <= k < s.len() ==> hid_report::on_keyboard(#[trigger] s[k]);
            &&& o is None <==> token == current_token && s.len() > 0 && text::byte_length(s)
                <= max_bytes && typable
            &&& o is Some ==> !o->Some_0.ok && !o->Some_0.truncated && o->Some_0.error is Some
                && o->Some_0.error->Some_0.code == (if token != current_token {
                "paste_cancelled"@
            } else if s.len() == 0 {
                "clipboard_empty"@
            } else if text::byte_length(s) > max_bytes {
                "paste_oversized"@
            } else {
                "unencodable_chars"@
            })
        }),
{
    let bad = text_encoder::untyped_positions(s);
    if bad.len() > 0 {
        assert(bad.contains(bad[0]));
        text_encoder::reported_positions_are_those_of_untyped_characters(s, bad[0]);
    }
    if !(forall|k: int| 0 <= k < s.len() ==> hid_report::on_keyboard(#[trigger] s[k])) {
        let k = choose|k: int| 0 <= k < s.len() && !hid_report::on_keyboard(#[trigger] s[k]);
        let p: nat = (k + s.take(k).filter(|c: char| c as u32 >= 0x10000).len()) as nat;
        text_encoder::reported_positions_are_those_of_untyped_characters(s, p);
        assert(bad.contains(p));
    }
}

/// A paste that broke off counts as not complete and keeps the reason; one that went through
/// counts as complete; both tell how long the text is.
pub proof fn outcomes_tell_how_it_went(
    char_count: nat,
    byte_count: nat,
    sent: nat,
    failure: Option<AdapterError<Seq<char>>>,
)
    ensures
        ({
            let r = typing_outcome(char_count, byte_count, sent, failure);
            &&& r.ok <==> failure is None
            &&& r.truncated <==> failure is Some
            &&& r.error is Some <==> failure is Some
            &&& r.char_count == char_count && r.byte_count == byte_count
            &&& failure is Some ==> r.error->Some_0.code == failure->Some_0.code_text()
            &&& r.unencodable_positions.len() == 0
        }),
{
}

/// Everything is released only where a key could not be lifted.
pub proof fn releases_follow_failed_lifts(
    chars: Seq<EncodedChar>,
    lifts: Seq<Option<AdapterError<Seq<char>>>>,
    i: int,
)
    requires
        lifts.len() == chars.len(),
        0 <= i < strokes(chars, lifts).len(),
        strokes(chars, lifts)[i].report is ReleaseAll,
    ensures
        0 < i,
        strokes(chars, lifts)[i - 1].failure is Some,
        strokes(chars, lifts)[i - 1].report is Keyboard,
    decreases chars.len(),
{
    if chars.len() > 0 {
        let head = strokes(chars.drop_last(), lifts.drop_last());
        if i < head.len() {
            releases_follow_failed_lifts(chars.drop_last(), lifts.drop_last(), i);
        }
    }
}

/// Where the clipboard cannot be read, nothing is typed, and the paste says so.
pub proof fn nothing_is_typed_of_what_cannot_be_read(
    e: AdapterError<Seq<char>>,
    max_bytes: nat,
    token: u64,
    current_token: u64,
    before: Seq<HidCall>,
    after: Seq<HidCall>,
    result: PasteOutcome,
)
    requires
        pasted_read(Err(e), max_bytes, token, current_token, before, after, result),
    ensures
        after == before,
        !result.ok,
        result.error matches Some(x) && x.code == "clipboard_read_failed"@,
{
}

} // verus!
