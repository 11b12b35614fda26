//! The windows in which phones are shown, one for each session.
//!
//! The label of such a window holds the name of its session, so that the window can find its
//! session by its label alone.
use vstd::prelude::*;

use crate::session::manager::SessionRegistry;
use crate::text;

verus! {

/// What the label of a window begins with in which a phone is shown.
pub const SIMULATOR_PREFIX: &'static str = "simulator-";

/// Bytes, each as two hexadecimal digits.
pub open spec fn hex_of(bytes: Seq<u8>) -> Seq<char>
    decreases bytes.len(),
{
    if bytes.len() == 0 {
        Seq::empty()
    } else {
        hex_of(bytes.drop_last()) + text::hex(bytes.last() as nat, 2, false)
    }
}

/// The bytes that hexadecimal digits stand for, two for each.
pub open spec fn bytes_in(digits: Seq<char>) -> Seq<u8> {
    Seq::new(
        (digits.len() / 2) as nat,
        |i: int| text::hex_value(digits.subrange(2 * i, 2 * i + 2)) as u8,
    )
}

/// The label of the window of a session.
pub open spec fn label_of(session_id: Seq<char>) -> Seq<char> {
    "simulator-"@ + hex_of(vstd::utf8::encode_utf8(session_id))
}

/// The session that a label names.
pub open spec fn session_in(label: Seq<char>) -> Option<Seq<char>> {
    match text::behind(label, "simulator-"@) {
        None => None,
        Some(digits) => {
            let bytes = bytes_in(digits);
            if digits.len() > 0 && digits.len() % 2 == 0 && text::all_hex(digits)
                && vstd::utf8::valid_utf8(bytes) {
                Some(vstd::utf8::decode_utf8(bytes))
            } else {
                None
            }
        },
    }
}

proof fn lemma_byte_digits(b: u8)
    ensures
        text::hex(b as nat, 2, false) == seq![
            text::hex_char(b as nat / 16, false),
            text::hex_char(b as nat % 16, false),
        ],
        text::hex_value(text::hex(b as nat, 2, false)) == b as nat,
        text::is_hex(text::hex_char(b as nat / 16, false)),
        text::is_hex(text::hex_char(b as nat % 16, false)),
{
    let n = b as nat;
    reveal_with_fuel(text::hex, 3);
    reveal_with_fuel(text::hex_value, 3);
    let s = text::hex(n, 2, false);
    assert(s =~= seq![text::hex_char(n / 16, false), text::hex_char(n % 16, false)]);
    assert(s.drop_last() =~= seq![text::hex_char(n / 16, false)]);
    assert(s.drop_last().drop_last() =~= Seq::<char>::empty());
}

proof fn lemma_hex_of(bytes: Seq<u8>)
    ensures
        hex_of(bytes).len() == 2 * bytes.len(),
        text::all_hex(hex_of(bytes)),
        bytes_in(hex_of(bytes)) == bytes,
        forall|i: int|
            0 <= i < hex_of(bytes).len() ==> text::is_digit(#[trigger] hex_of(bytes)[i]) || (
            'a' <= hex_of(bytes)[i] && hex_of(bytes)[i] <= 'f'),
    decreases bytes.len(),
{
    if bytes.len() > 0 {
        let head = bytes.drop_last();
        lemma_hex_of(head);
        lemma_byte_digits(bytes.last());
        let h = hex_of(head);
        let all = hex_of(bytes);
        assert forall|i: int| 0 <= i < bytes.len() implies #[trigger] bytes_in(all)[i]
            == bytes[i] by {
            if i < head.len() {
                assert(all.subrange(2 * i, 2 * i + 2) =~= h.subrange(2 * i, 2 * i + 2));
                assert(bytes_in(h)[i] == head[i]);
            } else {
                assert(all.subrange(2 * i, 2 * i + 2) =~= text::hex(
                    bytes.last() as nat,
                    2,
                    false,
                ));
            }
        }
        assert(bytes_in(all) =~= bytes);
    } else {
        assert(bytes_in(hex_of(bytes)) =~= bytes);
    }
}

/// A session is found again by the label of its window.
pub proof fn labels_lead_back(session_id: Seq<char>)
    requires
        session_id.len() > 0,
    ensures
        session_in(label_of(session_id)) == Some(session_id),
{
    let b = vstd::utf8::encode_utf8(session_id);
    let digits = hex_of(b);
    lemma_hex_of(b);
    text::lemma_byte_length(session_id);
    text::lemma_byte_length_at_least(session_id);
    vstd::utf8::encode_utf8_valid_utf8(session_id);
    vstd::utf8::encode_utf8_decode_utf8(session_id);
    let p = "simulator-"@;
    assert(text::stands_at(p + digits, p, 0)) by {
        assert((p + digits).subrange(0, p.len() as int) =~= p);
    }
    assert((p + digits).skip(p.len() as int) =~= digits);
}

/// A label holds only lower-case letters, digits and hyphens.
pub proof fn labels_are_plain(session_id: Seq<char>, i: int)
    requires
        0 <= i < label_of(session_id).len(),
    ensures
        ({
            let c = label_of(session_id)[i];
            text::is_lower(c) || text::is_digit(c) || c == '-'
        }),
{
    reveal_strlit("simulator-");
    lemma_hex_of(vstd::utf8::encode_utf8(session_id));
    let p = "simulator-"@;
    if i >= p.len() {
        assert(label_of(session_id)[i] == hex_of(vstd::utf8::encode_utf8(session_id))[i - p.len()]);
    }
}

/// Windows of different sessions have different labels.
pub proof fn labels_tell_sessions_apart(a: Seq<char>, b: Seq<char>)
    requires
        a != b,
    ensures
        label_of(a) != label_of(b),
{
    let x = vstd::utf8::encode_utf8(a);
    let y = vstd::utf8::encode_utf8(b);
    let p = "simulator-"@;
    lemma_hex_of(x);
    lemma_hex_of(y);
    vstd::utf8::encode_utf8_decode_utf8(a);
    vstd::utf8::encode_utf8_decode_utf8(b);
    if label_of(a) == label_of(b) {
        assert((p + hex_of(x)).skip(p.len() as int) =~= hex_of(x));
        assert((p + hex_of(y)).skip(p.len() as int) =~= hex_of(y));
    }
}

fn digits_of(session_id: &str) -> (r: String)
    ensures
        r@ == hex_of(vstd::utf8::encode_utf8(session_id@)),
{
    let bytes = session_id.as_bytes();
    let mut out = String::new();
    let mut i: usize = 0;
    assert(out@ =~= hex_of(bytes@.take(0)));
    while i < bytes.len()
        invariant
            i <= bytes@.len(),
            out@ == hex_of(bytes@.take(i as int)),
        decreases bytes@.len() - i,
    {
        out.append(text::hex_text(bytes[i] as u64, 2, false).as_str());
        proof {
            assert(bytes@.take(i + 1).drop_last() =~= bytes@.take(i as int));
        }
        i = i + 1;
    }
    assert(bytes@.take(i as int) =~= bytes@);
    out
}

/// The label of the window of a session.
pub fn simulator_label(session_id: &str) -> (r: String)
    ensures
        r@ == label_of(session_id@),
{
    text::cat2(SIMULATOR_PREFIX, digits_of(session_id).as_str())
}

/// The session that the label of a window names.
pub fn session_id_from_simulator_label(label: &str) -> (r: Option<String>)
    ensures
        text::opt_text(r) == session_in(label@),
{
    let digits = match text::strip_prefix(label, SIMULATOR_PREFIX) {
        Some(d) => text::chars_of(d.as_str()),
        None => {
            return None;
        },
    };
    if digits.len() == 0 || digits.len() % 2 != 0 {
        return None;
    }
    let mut bytes: Vec<u8> = Vec::new();
    let mut i: usize = 0;
    while i < digits.len()
        invariant
            i <= digits@.len(),
            digits@.len() % 2 == 0,
            text::behind(label@, "simulator-"@) == Some(digits@),
            i == 2 * bytes@.len(),
            text::all_hex(digits@.take(i as int)),
            forall|j: int|
                0 <= j < bytes@.len() ==> #[trigger] bytes@[j] == text::hex_value(
                    digits@.subrange(2 * j, 2 * j + 2),
                ) as u8,
        decreases digits@.len() - i,
    {
        if !text::hex_digit(digits[i]) || !text::hex_digit(digits[i + 1]) {
            assert(!text::is_hex(digits@[i as int]) || !text::is_hex(digits@[i + 1]));
            return None;
        }
        let high = digit_value(digits[i]);
        let low = digit_value(digits[i + 1]);
        proof {
            let pair = digits@.subrange(i as int, i + 2);
            reveal_with_fuel(text::hex_value, 3);
            assert(pair.drop_last() =~= seq![digits@[i as int]]);
            assert(pair.drop_last().drop_last() =~= Seq::<char>::empty());
            assert(text::hex_value(pair) == 16 * high + low);
            assert forall|j: int| 0 <= j < i + 2 implies text::is_hex(
                #[trigger] digits@.take(i + 2)[j],
            ) by {
                if j < i {
                    assert(text::is_hex(digits@.take(i as int)[j]));
                }
            }
        }
        bytes.push(16 * high + low);
        i = i + 2;
    }
    assert(digits@.take(i as int) =~= digits@);
    assert(bytes@ =~= bytes_in(digits@));
    text::from_utf8(bytes)
}

fn digit_value(c: char) -> (r: u8)
    requires
        text::is_hex(c),
    ensures
        r == text::hex_value_of(c),
        r < 16,
{
    if '0' <= c && c <= '9' {
        (c as u32 - 48) as u8
    } else if 'a' <= c && c <= 'f' {
        (c as u32 - 87) as u8
    } else {
        (c as u32 - 55) as u8
    }
}

/// What is to be done to show a session.
#[derive(Debug)]
pub enum WindowPlan<T = String> {
    /// Its window is there: it is shown and focused.
    Show { label: T },
    /// A window is made for it.
    Create { label: T, url: T, title: T },
}

impl View for WindowPlan<String> {
    type V = WindowPlan<Seq<char>>;

    open spec fn view(&self) -> WindowPlan<Seq<char>> {
        match self {
            WindowPlan::Show { label } => WindowPlan::Show { label: label@ },
            WindowPlan::Create { label, url, title } => WindowPlan::Create {
                label: label@,
                url: url@,
                title: title@,
            },
        }
    }
}

/// What is to be done to show a session; `open` says whether its window is there.
pub open spec fn plan_for(session_id: Seq<char>, open: bool) -> WindowPlan<Seq<char>> {
    if open {
        WindowPlan::Show { label: label_of(session_id) }
    } else {
        WindowPlan::Create {
            label: label_of(session_id),
            url: "simulator.html?simulator="@ + hex_of(vstd::utf8::encode_utf8(session_id)),
            title: session_id,
        }
    }
}

/// What is to be done to show a session; `open` says whether its window is there. Other windows
/// stay as they are.
pub fn open_simulator_inner(reg: &SessionRegistry, session_id: &str, open: bool) -> (r: Result<
    WindowPlan,
    String,
>)
    ensures
        match r {
            Ok(plan) => reg@.has(session_id@) && plan@ == plan_for(session_id@, open),
            Err(e) => !reg@.has(session_id@) && e@ == "会话不存在："@ + session_id@,
        },
{
    match reg.get(session_id) {
        None => Err(text::cat2("会话不存在：", session_id)),
        Some(_) => {
            let label = simulator_label(session_id);
            if open {
                Ok(WindowPlan::Show { label })
            } else {
                Ok(
                    WindowPlan::Create {
                        label,
                        url: text::cat2(
                            "simulator.html?simulator=",
                            digits_of(session_id).as_str(),
                        ),
                        title: text::own(session_id),
                    },
                )
            }
        },
    }
}

/// What is to be done once a session became the active one: nothing where it is not there.
pub fn sync_simulator_windows(reg: &SessionRegistry, active_id: &str, open: bool) -> (r: Option<
    WindowPlan,
>)
    ensures
        match r {
            Some(plan) => reg@.has(active_id@) && plan@ == plan_for(active_id@, open),
            None => !reg@.has(active_id@),
        },
{
    match open_simulator_inner(reg, active_id, open) {
        Ok(plan) => Some(plan),
        Err(_) => None,
    }
}

/// A session is shown in its own window: the one that is open, or a new one that is named after
/// the session and whose address leads back to it.
pub proof fn windows_belong_to_their_session(session_id: Seq<char>, open: bool)
    requires
        session_id.len() > 0,
    ensures
        open ==> (plan_for(session_id, open) matches WindowPlan::Show { label } && session_in(label)
            == Some(session_id)),
        !open ==> (plan_for(session_id, open) matches WindowPlan::Create { label, url, title }
            && session_in(label) == Some(session_id) && title == session_id && url
            == "simulator.html?simulator="@ + label.skip(10)),
        label_of(session_id).take(10) == "simulator-"@,
{
    labels_lead_back(session_id);
    reveal_strlit("simulator-");
    let digits = hex_of(vstd::utf8::encode_utf8(session_id));
    assert(label_of(session_id).take(10) =~= "simulator-"@);
    assert(label_of(session_id).skip(10) =~= digits);
}

} // verus!
