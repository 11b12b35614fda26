//! Precise control of an iPhone over USB: a signed automation server on the phone is reached
//! through a tunnel on the loopback interface and is sent absolute input actions.
//!
//! Which endpoint is used, how a connection comes about and which requests each input makes is
//! decided here; opening sockets and starting the tunnel is left to the program.
use vstd::prelude::*;

use crate::integrations;
use crate::integrations::adb;
use crate::integrations::usb_devices;
use crate::integrations::usb_devices::UsbDevice;
use crate::integrations::wda_requests;
use crate::integrations::wda_requests::{ScreenSize, WdaRequest};
use crate::integrations::{executable, path_below, AdapterError, HostPlatform};
use crate::json;
use crate::json::{Json, JsonValue};
use crate::text;

verus! {

/// The port of the automation server on the phone.
pub const DEFAULT_WDA_PORT: u16 = 8100;

// ---------------------------------------------------------------------------
// Coordinates
// ---------------------------------------------------------------------------

/// A coordinate of a side of length `from` on a side of length `to`: the nearest one, so that
/// both ends map to both ends.
pub open spec fn mapped(at: u32, from: u32, to: u32) -> int {
    let x: int = if at < from {
        at as int
    } else {
        from - 1
    };
    if from <= 1 || to <= 1 {
        0
    } else {
        (2 * (x * (to - 1)) + (from - 1)) / (2 * (from - 1))
    }
}

pub open spec fn has_area(s: ScreenSize) -> bool {
    s.width > 0 && s.height > 0
}

/// A point of a picture on the screen of the phone.
pub open spec fn mapped_point(source: ScreenSize, target: ScreenSize, x: u32, y: u32) -> Option<
    (u32, u32),
> {
    if has_area(source) && has_area(target) {
        Some(
            (
                mapped(x, source.width, target.width) as u32,
                mapped(y, source.height, target.height) as u32,
            ),
        )
    } else {
        None
    }
}

proof fn lemma_mapped_range(at: u32, from: u32, to: u32)
    requires
        from >= 1,
        to >= 1,
    ensures
        0 <= mapped(at, from, to) <= to - 1,
{
    if from > 1 && to > 1 {
        let x: int = if at < from {
            at as int
        } else {
            from - 1
        };
        let q: int = from - 1;
        let t: int = to - 1;
        assert(0 <= x * t <= q * t) by (nonlinear_arith)
            requires
                0 <= x <= q,
                0 <= t,
        ;
        let top = 2 * (q * t) + q;
        vstd::arithmetic::div_mod::lemma_div_is_ordered(2 * (x * t) + q, top, 2 * q);
        assert(top == t * (2 * q) + q) by (nonlinear_arith)
            requires
                top == 2 * (q * t) + q,
        ;
        vstd::arithmetic::div_mod::lemma_fundamental_div_mod_converse(top, 2 * q, t, q);
        vstd::arithmetic::div_mod::lemma_div_pos_is_pos(2 * (x * t) + q, 2 * q);
    }
}

fn map_side(at: u32, from: u32, to: u32) -> (r: u32)
    requires
        from >= 1,
        to >= 1,
    ensures
        r == mapped(at, from, to),
{
    let x: u32 = if at < from {
        at
    } else {
        from - 1
    };
    if from == 1 || to == 1 {
        return 0;
    }
    proof {
        lemma_mapped_range(at, from, to);
        let t: int = to - 1;
        assert(0 <= x * t <= 0xffff_ffff * 0xffff_ffff) by (nonlinear_arith)
            requires
                0 <= x <= 0xffff_ffff,
                0 <= t <= 0xffff_ffff,
        ;
    }
    let p: u128 = x as u128 * (to - 1) as u128;
    let q: u128 = (from - 1) as u128;
    ((2 * p + q) / (2 * q)) as u32
}

/// Maps a point of the mirrored picture to the screen of the phone; `None` where one of the
/// two has no area. Points outside the picture count as its nearest edge.
pub fn map_absolute_point(source: ScreenSize, target: ScreenSize, x: u32, y: u32) -> (r: Option<
    (u32, u32),
>)
    ensures
        r == mapped_point(source, target, x, y),
        match r {
            Some((a, b)) => has_area(source) && has_area(target) && a == mapped(
                x,
                source.width,
                target.width,
            ) && b == mapped(y, source.height, target.height) && a < target.width && b
                < target.height,
            None => !has_area(source) || !has_area(target),
        },
{
    if source.width == 0 || source.height == 0 || target.width == 0 || target.height == 0 {
        return None;
    }
    proof {
        lemma_mapped_range(x, source.width, target.width);
        lemma_mapped_range(y, source.height, target.height);
    }
    Some((map_side(x, source.width, target.width), map_side(y, source.height, target.height)))
}

/// The first coordinate maps to the first one and the last to the last one.
pub proof fn ends_map_to_ends(from: u32, to: u32)
    requires
        from > 1,
        to >= 1,
    ensures
        mapped(0, from, to) == 0,
        mapped((from - 1) as u32, from, to) == to - 1,
{
    if to > 1 {
        let q: int = from - 1;
        let t: int = to - 1;
        assert(2 * (0 * t) + q == 0 * (2 * q) + q) by (nonlinear_arith);
        vstd::arithmetic::div_mod::lemma_fundamental_div_mod_converse(q, 2 * q, 0, q);
        let top = 2 * (q * t) + q;
        assert(top == t * (2 * q) + q) by (nonlinear_arith)
            requires
                top == 2 * (q * t) + q,
        ;
        vstd::arithmetic::div_mod::lemma_fundamental_div_mod_converse(top, 2 * q, t, q);
    }
}

/// A coordinate maps to the one nearest to its share of the side: it is off by at most half a
/// step. A coordinate outside the side counts as the last one.
pub proof fn points_map_to_the_nearest(at: u32, from: u32, to: u32)
    requires
        from > 1,
        to > 1,
    ensures
        at < from ==> -(from - 1) <= 2 * ((from - 1) * mapped(at, from, to)) - 2 * (at * (to - 1))
            <= from - 1,
        at >= from ==> mapped(at, from, to) == mapped((from - 1) as u32, from, to),
{
    if at < from {
        let q: int = from - 1;
        let n: int = 2 * (at * (to - 1)) + q;
        let m: int = mapped(at, from, to);
        assert(n >= 0) by (nonlinear_arith)
            requires
                n == 2 * (at * (to - 1)) + q,
                q >= 0,
                to > 1,
                at >= 0,
        ;
        vstd::arithmetic::div_mod::lemma_fundamental_div_mod(n, 2 * q);
        vstd::arithmetic::div_mod::lemma_mod_bound(n, 2 * q);
        let rem: int = n % (2 * q);
        assert(n == (2 * q) * m + rem);
        assert((2 * q) * m == 2 * (q * m)) by (nonlinear_arith);
    }
}

/// The two coordinates of a point map apart from each other, each along its own side, and there
/// is a point exactly where both sizes have an area.
pub proof fn points_map_side_by_side(
    source: ScreenSize,
    target: ScreenSize,
    x: u32,
    y: u32,
    other: u32,
)
    ensures
        mapped_point(source, target, x, y) is Some <==> source.width > 0 && source.height > 0
            && target.width > 0 && target.height > 0,
        mapped_point(source, target, x, y) matches Some(p) ==> p.0 < target.width && p.1
            < target.height,
        mapped_point(source, target, x, y) matches Some(p) ==> mapped_point(
            source,
            target,
            x,
            other,
        )->Some_0.0 == p.0 && mapped_point(source, target, other, y)->Some_0.1 == p.1,
        has_area(source) && has_area(target) && source.width == target.width && x < source.width
            ==> mapped_point(source, target, x, y)->Some_0.0 == x,
        has_area(source) && has_area(target) && source.height == target.height && y < source.height
            ==> mapped_point(source, target, x, y)->Some_0.1 == y,
        source.width > 1 && has_area(source) && has_area(target) ==> mapped_point(
            source,
            target,
            (source.width - 1) as u32,
            y,
        )->Some_0.0 == target.width - 1 && mapped_point(source, target, 0, y)->Some_0.0 == 0,
        source.height > 1 && has_area(source) && has_area(target) ==> mapped_point(
            source,
            target,
            x,
            (source.height - 1) as u32,
        )->Some_0.1 == target.height - 1 && mapped_point(source, target, x, 0)->Some_0.1 == 0,
{
    if has_area(source) && has_area(target) {
        lemma_mapped_range(x, source.width, target.width);
        lemma_mapped_range(y, source.height, target.height);
        lemma_mapped_range(other, source.width, target.width);
        lemma_mapped_range(other, source.height, target.height);
        if source.width > 1 {
            ends_map_to_ends(source.width, target.width);
        }
        if source.height > 1 {
            ends_map_to_ends(source.height, target.height);
        }
        if source.width == target.width && x < source.width && source.width > 1 {
            lemma_same_side(x, source.width);
        }
        if source.height == target.height && y < source.height && source.height > 1 {
            lemma_same_side(y, source.height);
        }
    }
}

proof fn lemma_same_side(at: u32, side: u32)
    requires
        side > 1,
        at < side,
    ensures
        mapped(at, side, side) == at,
{
    let q: int = side - 1;
    let n: int = 2 * (at * q) + q;
    assert(n == at * (2 * q) + q) by (nonlinear_arith)
        requires
            n == 2 * (at * q) + q,
    ;
    vstd::arithmetic::div_mod::lemma_fundamental_div_mod_converse(n, 2 * q, at as int, q);
}

/// Mapping keeps the order of coordinates.
pub proof fn mapping_keeps_order(a: u32, b: u32, from: u32, to: u32)
    requires
        a <= b,
        from >= 1,
        to >= 1,
    ensures
        mapped(a, from, to) <= mapped(b, from, to),
{
    if from > 1 && to > 1 {
        let q: int = from - 1;
        let t: int = to - 1;
        let x: int = if a < from {
            a as int
        } else {
            q
        };
        let y: int = if b < from {
            b as int
        } else {
            q
        };
        assert(x * t <= y * t) by (nonlinear_arith)
            requires
                x <= y,
                0 <= t,
        ;
        vstd::arithmetic::div_mod::lemma_div_is_ordered(2 * (x * t) + q, 2 * (y * t) + q, 2 * q);
    }
}

// ---------------------------------------------------------------------------
// Endpoints
// ---------------------------------------------------------------------------

/// An endpoint on the loopback interface.
#[derive(Debug)]
pub struct LoopbackEndpoint<T = String> {
    pub host: T,
    pub port: u16,
}

impl View for LoopbackEndpoint<String> {
    type V = LoopbackEndpoint<Seq<char>>;

    open spec fn view(&self) -> LoopbackEndpoint<Seq<char>> {
        LoopbackEndpoint { host: self.host@, port: self.port }
    }
}

impl Clone for LoopbackEndpoint {
    fn clone(&self) -> (r: Self)
        ensures
            r@ == self@,
    {
        LoopbackEndpoint { host: text::own(self.host.as_str()), port: self.port }
    }
}

/// The endpoint at a port of this machine.
pub open spec fn local_endpoint(port: u16) -> LoopbackEndpoint<Seq<char>> {
    LoopbackEndpoint { host: "127.0.0.1"@, port }
}

fn at_local_port(port: u16) -> (r: LoopbackEndpoint)
    ensures
        r@ == local_endpoint(port),
{
    LoopbackEndpoint { host: text::own("127.0.0.1"), port }
}

impl LoopbackEndpoint<Seq<char>> {
    pub open spec fn address_text(self) -> Seq<char> {
        if self.host == "::1"@ {
            "["@ + self.host + "]:"@ + text::dec(self.port as nat)
        } else {
            self.host + ":"@ + text::dec(self.port as nat)
        }
    }
}

impl LoopbackEndpoint {
    /// The endpoint as an address to connect to.
    pub fn address(&self) -> (r: String)
        ensures
            r@ == self@.address_text(),
    {
        let port = text::decimal(self.port as u64);
        if text::same(self.host.as_str(), "::1") {
            text::cat4("[", self.host.as_str(), "]:", port.as_str())
        } else {
            text::cat3(self.host.as_str(), ":", port.as_str())
        }
    }
}

/// The hosts that are this machine.
pub open spec fn is_loopback(host: Seq<char>) -> bool {
    host == "127.0.0.1"@ || host == "localhost"@ || host == "::1"@
}

/// The host and the port that an authority names; the port is 8100 where it names none.
pub open spec fn host_and_port(authority: Seq<char>) -> Result<
    (Seq<char>, Seq<char>),
    AdapterError<Seq<char>>,
> {
    match text::behind(authority, "["@) {
        Some(rest) => match text::parted(rest, ']') {
            None => Err(AdapterError::IosUsbUnavailable("WDA IPv6 回环地址格式无效"@)),
            Some((host, after)) => Ok(
                (
                    host,
                    match text::behind(after, ":"@) {
                        Some(p) => p,
                        None => "8100"@,
                    },
                ),
            ),
        },
        None => {
            let i = text::last_at(authority, ':', authority.len() as int);
            if i < 0 {
                Ok((authority, "8100"@))
            } else {
                Ok((authority.take(i), authority.skip(i + 1)))
            }
        },
    }
}

/// The endpoint that a URL names: an `http` URL of this machine, with a port that is not zero.
pub open spec fn endpoint_of(raw: Seq<char>) -> Result<
    LoopbackEndpoint<Seq<char>>,
    AdapterError<Seq<char>>,
> {
    match text::behind(raw, "http://"@) {
        None => Err(AdapterError::IosUsbUnavailable("WDA 地址必须是 http:// 回环地址"@)),
        Some(rest) => {
            let authority = match text::parted(rest, '/') {
                Some((a, _)) => a,
                None => rest,
            };
            if authority.len() == 0 || authority.contains('@') || authority.contains('?') {
                Err(
                    AdapterError::IosUsbUnavailable(
                        "WDA 地址格式无效，只允许 127.0.0.1/localhost/[::1]"@,
                    ),
                )
            } else {
                match host_and_port(authority) {
                    Err(e) => Err(e),
                    Ok((host, port)) => match text::parsed(port, u16::MAX as nat) {
                        None => Err(AdapterError::IosUsbUnavailable("WDA 端口无效"@)),
                        Some(n) => if !is_loopback(host) {
                            Err(
                                AdapterError::IosUsbUnavailable(
                                    "WDA 只允许通过本机回环地址访问"@,
                                ),
                            )
                        } else if n == 0 {
                            Err(AdapterError::IosUsbUnavailable("WDA 端口不能为 0"@))
                        } else {
                            Ok(LoopbackEndpoint { host, port: n as u16 })
                        },
                    },
                }
            }
        },
    }
}

pub open spec fn endpoint_outcome(r: Result<LoopbackEndpoint, AdapterError>) -> Result<
    LoopbackEndpoint<Seq<char>>,
    AdapterError<Seq<char>>,
> {
    match r {
        Ok(e) => Ok(e@),
        Err(e) => Err(e@),
    }
}

fn split_authority(authority: &str) -> (r: Result<(String, String), AdapterError>)
    ensures
        match r {
            Ok((h, p)) => host_and_port(authority@) == Ok::<_, AdapterError<Seq<char>>>((h@, p@)),
            Err(e) => host_and_port(authority@) == Err::<(Seq<char>, Seq<char>), _>(e@),
        },
{
    match text::strip_prefix(authority, "[") {
        Some(rest) => match text::split_once(rest.as_str(), ']') {
            None => Err(AdapterError::IosUsbUnavailable(text::own("WDA IPv6 回环地址格式无效"))),
            Some((host, after)) => {
                let port = match text::strip_prefix(after.as_str(), ":") {
                    Some(p) => p,
                    None => text::own("8100"),
                };
                Ok((host, port))
            },
        },
        None => {
            let v = text::chars_of(authority);
            match text::rfind_char(&v, ':') {
                None => Ok((text::own(authority), text::own("8100"))),
                Some(i) => {
                    let n: usize = v.len();
                    let host = text::text_of(vstd::slice::slice_subrange(v.as_slice(), 0, i));
                    let port = text::text_of(vstd::slice::slice_subrange(v.as_slice(), i + 1, n));
                    proof {
                        assert(host@ =~= authority@.take(i as int));
                        assert(port@ =~= authority@.skip(i + 1));
                    }
                    Ok((host, port))
                },
            }
        },
    }
}

/// Reads the URL of an automation server; only plain URLs of this machine are accepted, so
/// that input can be sent nowhere else.
pub fn parse_loopback_url(raw: &str) -> (r: Result<LoopbackEndpoint, AdapterError>)
    ensures
        endpoint_outcome(r) == endpoint_of(raw@),
{
    let rest = match text::strip_prefix(raw, "http://") {
        None => {
            return Err(
                AdapterError::IosUsbUnavailable(text::own("WDA 地址必须是 http:// 回环地址")),
            );
        },
        Some(rest) => rest,
    };
    let authority = match text::split_once(rest.as_str(), '/') {
        Some((a, _)) => a,
        None => rest,
    };
    if authority.as_str().is_empty() || text::contains_char(authority.as_str(), '@')
        || text::contains_char(authority.as_str(), '?') {
        return Err(
            AdapterError::IosUsbUnavailable(
                text::own("WDA 地址格式无效，只允许 127.0.0.1/localhost/[::1]"),
            ),
        );
    }
    let (host, port) = match split_authority(authority.as_str()) {
        Err(e) => {
            return Err(e);
        },
        Ok(p) => p,
    };
    let n = match text::parse_number(port.as_str(), u16::MAX as u64) {
        None => {
            return Err(AdapterError::IosUsbUnavailable(text::own("WDA 端口无效")));
        },
        Some(n) => n as u16,
    };
    if !text::same(host.as_str(), "127.0.0.1") && !text::same(host.as_str(), "localhost")
        && !text::same(host.as_str(), "::1") {
        return Err(
            AdapterError::IosUsbUnavailable(text::own("WDA 只允许通过本机回环地址访问")),
        );
    }
    if n == 0 {
        return Err(AdapterError::IosUsbUnavailable(text::own("WDA 端口不能为 0")));
    }
    Ok(LoopbackEndpoint { host, port: n })
}

/// The URL of a port of this machine leads to that port, by whichever of its names, with or
/// without a path behind it; the port zero leads nowhere.
pub proof fn local_urls_read_back(host: Seq<char>, port: u16, path: Seq<char>)
    requires
        host == "127.0.0.1"@ || host == "localhost"@,
        path.len() == 0 || path[0] == '/',
    ensures
        ({
            let url = "http://"@ + (host + ":"@ + text::dec(port as nat)) + path;
            &&& port != 0 ==> endpoint_of(url) == Ok::<_, AdapterError<Seq<char>>>(
                (LoopbackEndpoint { host, port }),
            )
            &&& port == 0 ==> endpoint_of(url) is Err
        }),
{
    reveal_strlit("http://");
    reveal_strlit(":");
    reveal_strlit("127.0.0.1");
    reveal_strlit("localhost");
    reveal_strlit("[");
    let digits = text::dec(port as nat);
    text::decimal_numbers_read_back(port as nat, u16::MAX as nat);
    let authority = host + ":"@ + digits;
    let rest = authority + path;
    let url = "http://"@ + authority + path;
    assert(url =~= "http://"@ + rest);
    assert(url.subrange(0, 7) =~= "http://"@);
    assert(url.skip(7) =~= rest);
    let n = host.len() as int;
    assert forall|i: int| 0 <= i < authority.len() implies #[trigger] authority[i] != '/'
        && authority[i] != '@' && authority[i] != '?' && (authority[i] == ':' ==> i == n) by {
        if i > n {
            assert(authority[i] == digits[i - n - 1]);
            assert(text::is_digit(digits[i - n - 1]));
        } else if i < n {
            assert(authority[i] == host[i]);
        }
    }
    let f = text::is_char('/');
    assert forall|i: int| 0 <= i < authority.len() implies !f(#[trigger] rest[i]) by {
        assert(rest[i] == authority[i]);
    }
    if path.len() > 0 {
        assert(rest[authority.len() as int] == path[0]);
    }
    text::lemma_find_from_is(rest, f, 0, authority.len() as int);
    assert(rest.take(authority.len() as int) =~= authority);
    if path.len() == 0 {
        assert(rest =~= authority);
    }
    assert(authority[0] == host[0]);
    if text::stands_at(authority, "["@, 0) {
        assert(authority.subrange(0, 1)[0] == '[');
    }
    lemma_last_colon(authority, n, authority.len() as int);
    assert(authority.take(n) =~= host);
    assert(authority.skip(n + 1) =~= digits);
}

proof fn lemma_last_colon(s: Seq<char>, at: int, n: int)
    requires
        0 <= at < n <= s.len(),
        s[at] == ':',
        forall|i: int| at < i < s.len() ==> #[trigger] s[i] != ':',
    ensures
        text::last_at(s, ':', n) == at,
    decreases n,
{
    if n - 1 > at {
        lemma_last_colon(s, at, n - 1);
    }
}

/// No URL leads anywhere but to a port of this machine.
pub proof fn urls_lead_to_this_machine(raw: Seq<char>)
    ensures
        endpoint_of(raw) matches Ok(e) ==> is_loopback(e.host) && e.port != 0,
{
}

/// The ports at which automation servers were started, by the identifier of the phone. The
/// identifiers stay in here.
pub struct WdaEndpoints {
    entries: Vec<(String, u16)>,
}

spec fn entries_map(s: Seq<(String, u16)>) -> Map<Seq<char>, u16>
    decreases s.len(),
{
    if s.len() == 0 {
        Map::empty()
    } else {
        entries_map(s.drop_last()).insert(s.last().0@, s.last().1)
    }
}

impl View for WdaEndpoints {
    type V = Map<Seq<char>, u16>;

    closed spec fn view(&self) -> Map<Seq<char>, u16> {
        entries_map(self.entries@)
    }
}

impl WdaEndpoints {
    /// No ports.
    pub fn new() -> (r: Self)
        ensures
            r@ == Map::<Seq<char>, u16>::empty(),
    {
        WdaEndpoints { entries: Vec::new() }
    }

    /// Notes the port of a phone.
    pub fn register_wda_endpoint(&mut self, raw_udid: &str, host_port: u16)
        ensures
            final(self)@ == old(self)@.insert(raw_udid@, host_port),
    {
        self.unregister_wda_endpoint(raw_udid);
        let ghost before = self.entries@;
        self.entries.push((text::own(raw_udid), host_port));
        proof {
            assert(self.entries@.drop_last() =~= before);
            assert(self@ =~= entries_map(before).insert(raw_udid@, host_port));
        }
    }

    /// Forgets the port of a phone.
    pub fn unregister_wda_endpoint(&mut self, raw_udid: &str)
        ensures
            final(self)@ == old(self)@.remove(raw_udid@),
    {
        let ghost all = self.entries@;
        let mut kept: Vec<(String, u16)> = Vec::new();
        let mut i: usize = 0;
        assert(entries_map(kept@) =~= entries_map(all.take(0)).remove(raw_udid@));
        while i < self.entries.len()
            invariant
                i <= self.entries@.len(),
                self.entries@ == all,
                entries_map(kept@) == entries_map(all.take(i as int)).remove(raw_udid@),
            decreases all.len() - i,
        {
            let ghost before = kept@;
            proof {
                assert(all.take(i + 1).drop_last() =~= all.take(i as int));
            }
            let key = self.entries[i].0.as_str();
            if !text::same(key, raw_udid) {
                kept.push((text::own(key), self.entries[i].1));
                assert(kept@.drop_last() =~= before);
            }
            assert(entries_map(kept@) =~= entries_map(all.take(i + 1)).remove(raw_udid@));
            i = i + 1;
        }
        assert(all.take(i as int) =~= all);
        self.entries = kept;
    }

    /// Forgets the ports of all phones that another table has.
    pub fn forget_all_of(&mut self, others: &WdaEndpoints)
        ensures
            final(self)@ == old(self)@.remove_keys(others@.dom()),
    {
        let ghost start = self@;
        let ghost all = others.entries@;
        let mut i: usize = 0;
        assert(self@ =~= start.remove_keys(entries_map(all.take(0)).dom()));
        while i < others.entries.len()
            invariant
                i <= others.entries@.len(),
                others.entries@ == all,
                self@ == start.remove_keys(entries_map(all.take(i as int)).dom()),
            decreases all.len() - i,
        {
            proof {
                assert(all.take(i + 1).drop_last() =~= all.take(i as int));
            }
            self.unregister_wda_endpoint(others.entries[i].0.as_str());
            assert(self@ =~= start.remove_keys(entries_map(all.take(i + 1)).dom()));
            i = i + 1;
        }
        assert(all.take(i as int) =~= all);
    }

    /// The phones in the table, each once or more often.
    pub fn phones(&self) -> (r: Vec<String>)
        ensures
            forall|k: Seq<char>| self@.contains_key(k) == text::texts(r@).contains(k),
    {
        let ghost all = self.entries@;
        let mut out: Vec<String> = Vec::new();
        let mut i: usize = 0;
        assert(all.take(0) =~= Seq::empty());
        while i < self.entries.len()
            invariant
                i <= self.entries@.len(),
                self.entries@ == all,
                forall|k: Seq<char>|
                    entries_map(all.take(i as int)).contains_key(k) == text::texts(out@).contains(
                        k,
                    ),
            decreases all.len() - i,
        {
            let key = text::own(self.entries[i].0.as_str());
            let ghost before = text::texts(out@);
            out.push(key);
            proof {
                assert(all.take(i + 1).drop_last() =~= all.take(i as int));
                assert(text::texts(out@) =~= before.push(key@));
                assert forall|k: Seq<char>|
                    entries_map(all.take(i + 1)).contains_key(k) == text::texts(out@).contains(
                        k,
                    ) by {
                    let after = text::texts(out@);
                    if before.contains(k) {
                        let j = choose|j: int| 0 <= j < before.len() && before[j] == k;
                        assert(after[j] == k);
                    }
                    if k == key@ {
                        assert(after[before.len() as int] == k);
                    }
                    if after.contains(k) {
                        let j = choose|j: int| 0 <= j < after.len() && after[j] == k;
                        if j < before.len() {
                            assert(before[j] == k);
                        }
                    }
                }
            }
            i = i + 1;
        }
        assert(all.take(i as int) =~= all);
        out
    }

    /// The endpoint of a phone.
    pub fn registered_wda_endpoint(&self, raw_udid: &str) -> (r: Option<LoopbackEndpoint>)
        ensures
            match r {
                Some(e) => self@.contains_key(raw_udid@) && e@ == local_endpoint(
                    self@[raw_udid@],
                ),
                None => !self@.contains_key(raw_udid@),
            },
    {
        let ghost all = self.entries@;
        let mut i: usize = self.entries.len();
        assert(all.take(i as int) =~= all);
        while i > 0
            invariant
                i <= self.entries@.len(),
                self.entries@ == all,
                self@ == entries_map(all),
                entries_map(all).contains_key(raw_udid@) == entries_map(
                    all.take(i as int),
                ).contains_key(raw_udid@),
                entries_map(all).contains_key(raw_udid@) ==> entries_map(all)[raw_udid@]
                    == entries_map(all.take(i as int))[raw_udid@],
            decreases i,
        {
            proof {
                assert(all.take(i as int).drop_last() =~= all.take(i - 1));
            }
            if text::same(self.entries[i - 1].0.as_str(), raw_udid) {
                return Some(at_local_port(self.entries[i - 1].1));
            }
            i = i - 1;
        }
        None
    }
}

// ---------------------------------------------------------------------------
// Tools
// ---------------------------------------------------------------------------

/// What the environment says about where a tool for iPhones may be.
pub struct IosToolPlaces {
    pub platform: HostPlatform,
    pub resources: String,
    /// The value of the variable that names the tool, and whether that is a directory.
    pub configured: Option<String>,
    pub configured_is_dir: bool,
    pub program_files: Option<String>,
    pub local_app_data: Option<String>,
    pub path_dirs: Vec<String>,
}

/// The file `exe` in each of the directories.
pub open spec fn in_each(platform: HostPlatform, dirs: Seq<Seq<char>>, exe: Seq<char>) -> Seq<
    Seq<char>,
> {
    Seq::new(dirs.len(), |i: int| integrations::below(platform, dirs[i], exe))
}

/// The place that a variable names: a file, or the tool in a directory.
pub open spec fn named_place(p: IosToolPlaces, exe: Seq<char>) -> Seq<Seq<char>> {
    match p.configured {
        Some(c) => seq![
            if p.configured_is_dir {
                integrations::below(p.platform, c@, exe)
            } else {
                c@
            },
        ],
        None => Seq::empty(),
    }
}

/// The places that only one platform has.
pub open spec fn platform_places(p: IosToolPlaces, exe: Seq<char>) -> Seq<Seq<char>> {
    match p.platform {
        HostPlatform::MacOs => in_each(
            p.platform,
            seq!["/opt/homebrew/bin"@, "/usr/local/bin"@],
            exe,
        ),
        HostPlatform::Windows => in_each(
            p.platform,
            adb::opt_below(p.platform, text::opt_text(p.program_files), "libimobiledevice"@)
                + adb::opt_below(p.platform, text::opt_text(p.local_app_data), "libimobiledevice"@),
            exe,
        ),
        HostPlatform::Other => Seq::empty(),
    }
}

/// All places of a tool for iPhones in the order in which they are tried.
pub open spec fn ios_tool_places(p: IosToolPlaces, name: Seq<char>) -> Seq<Seq<char>> {
    let exe = integrations::executable_name(name, p.platform);
    let r = p.resources@;
    in_each(
        p.platform,
        seq![
            integrations::below(p.platform, r, "binaries"@),
            integrations::below(
                p.platform,
                integrations::below(p.platform, r, "binaries"@),
                "ios-usb"@,
            ),
            r,
            integrations::below(p.platform, r, "../MacOS"@),
        ],
        exe,
    ) + named_place(p, exe) + platform_places(p, exe) + in_each(
        p.platform,
        text::texts(p.path_dirs@),
        exe,
    )
}

/// The places of a tool that is used to install and run the automation server.
pub open spec fn runtime_tool_places(p: IosToolPlaces, name: Seq<char>) -> Seq<Seq<char>> {
    let exe = integrations::executable_name(name, p.platform);
    let r = p.resources@;
    in_each(
        p.platform,
        seq![
            integrations::below(p.platform, r, "binaries"@),
            integrations::below(p.platform, r, "binaries/ios-usb"@),
            r,
        ],
        exe,
    ) + named_place(p, exe) + in_each(p.platform, text::texts(p.path_dirs@), exe)
}

fn push_in_each(
    platform: HostPlatform,
    out: &mut Vec<String>,
    dirs: &Vec<String>,
    exe: &str,
)
    ensures
        text::texts(final(out)@) == text::texts(old(out)@) + in_each(
            platform,
            text::texts(dirs@),
            exe@,
        ),
{
    let ghost start = text::texts(out@);
    let ghost all = in_each(platform, text::texts(dirs@), exe@);
    let mut i: usize = 0;
    assert(text::texts(out@) =~= start + all.take(0));
    while i < dirs.len()
        invariant
            i <= dirs@.len(),
            all == in_each(platform, text::texts(dirs@), exe@),
            text::texts(out@) == start + all.take(i as int),
        decreases dirs@.len() - i,
    {
        let p = path_below(platform, dirs[i].as_str(), exe);
        adb::push_text(out, p.as_str());
        assert(p@ == all[i as int]);
        assert(start + all.take(i + 1) =~= (start + all.take(i as int)).push(p@));
        i = i + 1;
    }
    assert(all.take(i as int) =~= all);
}

fn push_named(out: &mut Vec<String>, p: &IosToolPlaces, exe: &str)
    ensures
        text::texts(final(out)@) == text::texts(old(out)@) + named_place(*p, exe@),
{
    let ghost start = text::texts(out@);
    match &p.configured {
        Some(c) => {
            let place = if p.configured_is_dir {
                path_below(p.platform, c.as_str(), exe)
            } else {
                text::own(c.as_str())
            };
            adb::push_text(out, place.as_str());
            assert(start.push(place@) =~= start + named_place(*p, exe@));
        },
        None => {
            assert(start =~= start + named_place(*p, exe@));
        },
    }
}

/// All places of a tool for iPhones; the first one that is a file is used.
pub fn ios_tool_candidates(p: &IosToolPlaces, name: &str) -> (r: Vec<String>)
    ensures
        text::texts(r@) == ios_tool_places(*p, name@),
{
    let exe = executable(name, p.platform);
    let mut shipped: Vec<String> = Vec::new();
    let binaries = path_below(p.platform, p.resources.as_str(), "binaries");
    let usb = path_below(p.platform, binaries.as_str(), "ios-usb");
    let mac = path_below(p.platform, p.resources.as_str(), "../MacOS");
    shipped.push(binaries);
    shipped.push(usb);
    shipped.push(text::own(p.resources.as_str()));
    shipped.push(mac);
    assert(text::texts(shipped@) =~= seq![binaries@, usb@, p.resources@, mac@]);
    let mut out: Vec<String> = Vec::new();
    push_in_each(p.platform, &mut out, &shipped, exe.as_str());
    push_named(&mut out, p, exe.as_str());
    let mut dirs: Vec<String> = Vec::new();
    match p.platform {
        HostPlatform::MacOs => {
            dirs.push(text::own("/opt/homebrew/bin"));
            dirs.push(text::own("/usr/local/bin"));
            assert(text::texts(dirs@) =~= seq!["/opt/homebrew/bin"@, "/usr/local/bin"@]);
        },
        HostPlatform::Windows => {
            adb::push_below(p.platform, &mut dirs, &p.program_files, "libimobiledevice");
            adb::push_below(p.platform, &mut dirs, &p.local_app_data, "libimobiledevice");
            assert(text::texts(dirs@) =~= adb::opt_below(
                p.platform,
                text::opt_text(p.program_files),
                "libimobiledevice"@,
            ) + adb::opt_below(p.platform, text::opt_text(p.local_app_data), "libimobiledevice"@));
        },
        HostPlatform::Other => {},
    }
    assert(in_each(p.platform, text::texts(dirs@), exe@) =~= platform_places(*p, exe@));
    push_in_each(p.platform, &mut out, &dirs, exe.as_str());
    push_in_each(p.platform, &mut out, &p.path_dirs, exe.as_str());
    assert(text::texts(out@) =~= ios_tool_places(*p, name@));
    out
}

/// The places of a tool that is used to install and run the automation server; the first one
/// that is a file is used.
pub fn runtime_tool_candidates(p: &IosToolPlaces, name: &str) -> (r: Vec<String>)
    ensures
        text::texts(r@) == runtime_tool_places(*p, name@),
{
    let exe = executable(name, p.platform);
    let mut shipped: Vec<String> = Vec::new();
    let binaries = path_below(p.platform, p.resources.as_str(), "binaries");
    let usb = path_below(p.platform, p.resources.as_str(), "binaries/ios-usb");
    shipped.push(binaries);
    shipped.push(usb);
    shipped.push(text::own(p.resources.as_str()));
    assert(text::texts(shipped@) =~= seq![binaries@, usb@, p.resources@]);
    let mut out: Vec<String> = Vec::new();
    push_in_each(p.platform, &mut out, &shipped, exe.as_str());
    push_named(&mut out, p, exe.as_str());
    push_in_each(p.platform, &mut out, &p.path_dirs, exe.as_str());
    assert(text::texts(out@) =~= runtime_tool_places(*p, name@));
    out
}

/// The places of the signed automation server; `configured` is the value of the variable that
/// names it.
pub fn wda_artifact_candidates(
    platform: HostPlatform,
    resources: &str,
    configured: &Option<String>,
) -> (r: Vec<String>)
    ensures
        text::texts(r@) == seq![
            integrations::below(platform, resources@, "binaries/ios-usb/WebDriverAgentRunner.ipa"@),
            integrations::below(platform, resources@, "binaries/ios-wda/WebDriverAgentRunner.ipa"@),
        ] + (match text::opt_text(*configured) {
            Some(p) => seq![p],
            None => Seq::empty(),
        }),
{
    let mut out: Vec<String> = Vec::new();
    let a = path_below(platform, resources, "binaries/ios-usb/WebDriverAgentRunner.ipa");
    let b = path_below(platform, resources, "binaries/ios-wda/WebDriverAgentRunner.ipa");
    out.push(a);
    out.push(b);
    assert(text::texts(out@) =~= seq![a@, b@]);
    match configured {
        Some(p) => {
            adb::push_text(&mut out, p.as_str());
            assert(text::texts(out@) =~= seq![a@, b@] + seq![p@]);
        },
        None => {
            assert(text::texts(out@) =~= seq![a@, b@] + Seq::<Seq<char>>::empty());
        },
    }
    out
}

// ---------------------------------------------------------------------------
// Capability
// ---------------------------------------------------------------------------

/// What came of an endpoint that is configured.
#[derive(Debug)]
pub enum ConfiguredWda<T = String> {
    /// None is configured.
    Absent,
    /// Its URL cannot be used.
    BadUrl(AdapterError<T>),
    /// It could not be connected to.
    NoConnection(AdapterError<T>),
    /// It did not answer a status request.
    NoAnswer(AdapterError<T>),
    /// It answered.
    Answered,
}

impl View for ConfiguredWda<String> {
    type V = ConfiguredWda<Seq<char>>;

    open spec fn view(&self) -> ConfiguredWda<Seq<char>> {
        match self {
            ConfiguredWda::Absent => ConfiguredWda::Absent,
            ConfiguredWda::BadUrl(e) => ConfiguredWda::BadUrl(e@),
            ConfiguredWda::NoConnection(e) => ConfiguredWda::NoConnection(e@),
            ConfiguredWda::NoAnswer(e) => ConfiguredWda::NoAnswer(e@),
            ConfiguredWda::Answered => ConfiguredWda::Answered,
        }
    }
}

/// Which parts of the path to an iPhone were found.
#[derive(Debug, Clone, Copy, PartialEq, Eq, Structural)]
pub struct WdaParts {
    pub iproxy: bool,
    pub artifact: bool,
    pub installer: bool,
    pub go_ios: bool,
}

/// Whether this machine is ready to control an iPhone over USB.
#[derive(Debug)]
pub struct IosControlCapability<T = String> {
    pub usb_wda_enabled: bool,
    pub wda_reachable: bool,
    pub iproxy_present: bool,
    pub wda_artifact_present: bool,
    pub direct_install_ready: bool,
    pub detail: T,
}

impl View for IosControlCapability<String> {
    type V = IosControlCapability<Seq<char>>;

    open spec fn view(&self) -> IosControlCapability<Seq<char>> {
        IosControlCapability {
            usb_wda_enabled: self.usb_wda_enabled,
            wda_reachable: self.wda_reachable,
            iproxy_present: self.iproxy_present,
            wda_artifact_present: self.wda_artifact_present,
            direct_install_ready: self.direct_install_ready,
            detail: self.detail@,
        }
    }
}

/// Whether the application can install and start the automation server itself.
pub open spec fn can_install(p: WdaParts) -> bool {
    p.artifact && p.installer && p.go_ios
}

/// What is said about the path to an iPhone.
pub open spec fn capability_detail(p: WdaParts, configured: ConfiguredWda<Seq<char>>) -> Seq<char> {
    match configured {
        ConfiguredWda::Answered => "已连接到配置的本机 WDA 回环端点"@,
        ConfiguredWda::NoAnswer(e) => "配置的 WDA 回环端点不可用："@ + e.message_text(),
        ConfiguredWda::NoConnection(e) => "无法连接配置的 WDA 回环端点："@ + e.message_text(),
        ConfiguredWda::BadUrl(e) => e.message_text(),
        ConfiguredWda::Absent => if can_install(p) {
            "已找到签名 WDA IPA、安装器和 go-ios；点击“一键准备 WDA”即可由应用安装并启动"@
        } else if p.artifact {
            "已找到签名 WDA IPA，但缺少安装器或 go-ios；请检查发布包的 ios-usb 资源"@
        } else if p.iproxy {
            "已找到 iproxy；选择具体 iPhone 后将通过 USB 隧道检测 WDA"@
        } else {
            "未找到 iproxy；请将审计后的跨平台工具放入应用 binaries/ios-usb/，或设置 PHONEBRIDGE_IPROXY_PATH"@
        },
    }
}

/// Says whether this machine is ready to control an iPhone over USB.
pub fn inspect_capability(p: WdaParts, configured: ConfiguredWda) -> (r: IosControlCapability)
    ensures
        r@ == (IosControlCapability {
            usb_wda_enabled: p.iproxy || configured is Answered || can_install(p),
            wda_reachable: configured is Answered,
            iproxy_present: p.iproxy,
            wda_artifact_present: p.artifact,
            direct_install_ready: can_install(p),
            detail: capability_detail(p, configured@),
        }),
{
    let ready = p.artifact && p.installer && p.go_ios;
    let reachable = matches!(configured, ConfiguredWda::Answered);
    let detail = match &configured {
        ConfiguredWda::Answered => text::own("已连接到配置的本机 WDA 回环端点"),
        ConfiguredWda::NoAnswer(e) => text::cat2(
            "配置的 WDA 回环端点不可用：",
            e.message().as_str(),
        ),
        ConfiguredWda::NoConnection(e) => text::cat2(
            "无法连接配置的 WDA 回环端点：",
            e.message().as_str(),
        ),
        ConfiguredWda::BadUrl(e) => e.message(),
        ConfiguredWda::Absent => if ready {
            text::own(
                "已找到签名 WDA IPA、安装器和 go-ios；点击“一键准备 WDA”即可由应用安装并启动",
            )
        } else if p.artifact {
            text::own("已找到签名 WDA IPA，但缺少安装器或 go-ios；请检查发布包的 ios-usb 资源")
        } else if p.iproxy {
            text::own("已找到 iproxy；选择具体 iPhone 后将通过 USB 隧道检测 WDA")
        } else {
            text::own(
                "未找到 iproxy；请将审计后的跨平台工具放入应用 binaries/ios-usb/，或设置 PHONEBRIDGE_IPROXY_PATH",
            )
        },
    };
    IosControlCapability {
        usb_wda_enabled: p.iproxy || reachable || ready,
        wda_reachable: reachable,
        iproxy_present: p.iproxy,
        wda_artifact_present: p.artifact,
        direct_install_ready: ready,
        detail,
    }
}

// ---------------------------------------------------------------------------
// Connecting
// ---------------------------------------------------------------------------

/// What a tunnel forwards: a port of this machine to a port of the phone.
pub fn iproxy_forward_spec(local_port: u16, device_port: u16) -> (r: String)
    ensures
        r@ == text::dec(local_port as nat) + ":"@ + text::dec(device_port as nat),
{
    text::cat3(
        text::decimal(local_port as u64).as_str(),
        ":",
        text::decimal(device_port as u64).as_str(),
    )
}

/// The arguments of the tunnel to a phone.
pub fn tunnel_arguments(udid: &str, local_port: u16) -> (r: Vec<String>)
    ensures
        text::texts(r@) == seq![
            "-u"@,
            udid@,
            text::dec(local_port as nat) + ":"@ + text::dec(8100),
        ],
{
    let mut out: Vec<String> = Vec::new();
    let forward = iproxy_forward_spec(local_port, DEFAULT_WDA_PORT);
    out.push(text::own("-u"));
    out.push(text::own(udid));
    out.push(forward);
    assert(text::texts(out@) =~= seq!["-u"@, udid@, forward@]);
    out
}

/// What a connection is made for: to control the phone, or only to see whether the server
/// answers.
#[derive(Debug, Clone, Copy, PartialEq, Eq, Structural)]
pub enum WdaPurpose {
    Control,
    Check,
}

/// How far a connection has come.
#[derive(Debug)]
#[allow(inconsistent_fields)]
pub enum WdaStage<T = String> {
    /// The connected iPhones are to be listed; `token` is how the phone is shown.
    LookUp { token: T },
    /// The tunnel tool is to be found.
    FindTool { udid: T },
    /// A free port of this machine is to be found.
    FindPort { udid: T },
    /// The tunnel is to be started.
    StartTunnel { udid: T, port: u16 },
    /// The server is to be asked for its status.
    Probe { endpoint: LoopbackEndpoint<T>, udid: Option<T>, tunnel: bool },
    /// A session is to be opened.
    OpenSession { endpoint: LoopbackEndpoint<T>, udid: Option<T>, tunnel: bool },
    /// The size of the screen is to be read.
    ReadSize { endpoint: LoopbackEndpoint<T>, session: T, owned: bool, tunnel: bool },
    /// The session is to be ended, after which the connection has failed.
    EndSession { session: T, error: AdapterError<T>, tunnel: bool },
    /// The server answers.
    Answers { tunnel: bool },
    /// The phone can be controlled.
    Connected { session: T, owned: bool, size: ScreenSize, tunnel: bool },
    /// There is no connection; `tunnel` where a tunnel is to be stopped.
    Failed { error: AdapterError<T>, tunnel: bool },
}

impl View for WdaStage<String> {
    type V = WdaStage<Seq<char>>;

    open spec fn view(&self) -> WdaStage<Seq<char>> {
        match self {
            WdaStage::LookUp { token } => WdaStage::LookUp { token: token@ },
            WdaStage::FindTool { udid } => WdaStage::FindTool { udid: udid@ },
            WdaStage::FindPort { udid } => WdaStage::FindPort { udid: udid@ },
            WdaStage::StartTunnel { udid, port } => WdaStage::StartTunnel {
                udid: udid@,
                port: *port,
            },
            WdaStage::Probe { endpoint, udid, tunnel } => WdaStage::Probe {
                endpoint: endpoint@,
                udid: text::opt_text(*udid),
                tunnel: *tunnel,
            },
            WdaStage::OpenSession { endpoint, udid, tunnel } => WdaStage::OpenSession {
                endpoint: endpoint@,
                udid: text::opt_text(*udid),
                tunnel: *tunnel,
            },
            WdaStage::ReadSize { endpoint, session, owned, tunnel } => WdaStage::ReadSize {
                endpoint: endpoint@,
                session: session@,
                owned: *owned,
                tunnel: *tunnel,
            },
            WdaStage::EndSession { session, error, tunnel } => WdaStage::EndSession {
                session: session@,
                error: error@,
                tunnel: *tunnel,
            },
            WdaStage::Answers { tunnel } => WdaStage::Answers { tunnel: *tunnel },
            WdaStage::Connected { session, owned, size, tunnel } => WdaStage::Connected {
                session: session@,
                owned: *owned,
                size: *size,
                tunnel: *tunnel,
            },
            WdaStage::Failed { error, tunnel } => WdaStage::Failed {
                error: error@,
                tunnel: *tunnel,
            },
        }
    }
}

/// What is configured about the connection to a phone.
pub struct WdaSettings {
    /// The URL of a server that is already reachable.
    pub url: Option<String>,
    /// The identifier of the phone.
    pub udid: Option<String>,
    /// The name of a session that is already open.
    pub session: Option<String>,
}

/// A failed connection.
pub open spec fn failed(text: Seq<char>, tunnel: bool) -> WdaStage<Seq<char>> {
    WdaStage::Failed { error: AdapterError::IosUsbUnavailable(text), tunnel }
}

fn fail(s: &str, tunnel: bool) -> (r: WdaStage)
    ensures
        r@ == failed(s@, tunnel),
{
    WdaStage::Failed { error: AdapterError::IosUsbUnavailable(text::own(s)), tunnel }
}

/// How a connection goes on once the phone is known: to its port where it has one, else by a
/// tunnel.
pub open spec fn with_phone(ports: Map<Seq<char>, u16>, udid: Seq<char>) -> WdaStage<Seq<char>> {
    if ports.contains_key(udid) {
        WdaStage::Probe { endpoint: local_endpoint(ports[udid]), udid: Some(udid), tunnel: false }
    } else {
        WdaStage::FindTool { udid }
    }
}

fn go_to_phone(ports: &WdaEndpoints, udid: String) -> (r: WdaStage)
    ensures
        r@ == with_phone(ports@, udid@),
{
    match ports.registered_wda_endpoint(udid.as_str()) {
        Some(endpoint) => WdaStage::Probe { endpoint, udid: Some(udid), tunnel: false },
        None => WdaStage::FindTool { udid },
    }
}

/// How a phone is shown, by the name of its session.
pub open spec fn phone_token(session: Seq<char>) -> Seq<char> {
    match text::behind(session, "iphone:"@) {
        Some(t) => t,
        None => session,
    }
}

/// Where a connection begins.
pub open spec fn first_stage(
    url: Option<Seq<char>>,
    configured: Option<Seq<char>>,
    ports: Map<Seq<char>, u16>,
    purpose: WdaPurpose,
    phone: Seq<char>,
) -> WdaStage<Seq<char>> {
    match url {
        Some(u) => match endpoint_of(u) {
            Ok(endpoint) => WdaStage::Probe { endpoint, udid: None, tunnel: false },
            Err(error) => WdaStage::Failed { error, tunnel: false },
        },
        None => match purpose {
            WdaPurpose::Control => match configured {
                Some(c) => if usb_devices::valid_id(c) {
                    with_phone(ports, c)
                } else {
                    failed("PHONEBRIDGE_IOS_UDID 格式无效"@, false)
                },
                None => if usb_devices::valid_id(phone_token(phone)) {
                    with_phone(ports, phone_token(phone))
                } else {
                    WdaStage::LookUp { token: phone_token(phone) }
                },
            },
            WdaPurpose::Check => if ports.contains_key(phone) {
                with_phone(ports, phone)
            } else if !usb_devices::valid_id(phone) {
                failed("iPhone UDID 格式无效，无法建立 WDA 隧道"@, false)
            } else {
                WdaStage::FindTool { udid: phone }
            },
        },
    }
}

/// Begins a connection; `phone` is the name of a session where the phone is to be controlled,
/// and the identifier of the phone where the server is only looked for.
pub fn begin_connection(
    settings: &WdaSettings,
    ports: &WdaEndpoints,
    purpose: WdaPurpose,
    phone: &str,
) -> (r: WdaStage)
    ensures
        r@ == first_stage(
            text::opt_text(settings.url),
            text::opt_text(settings.udid),
            ports@,
            purpose,
            phone@,
        ),
{
    match &settings.url {
        Some(u) => match parse_loopback_url(u.as_str()) {
            Ok(endpoint) => WdaStage::Probe { endpoint, udid: None, tunnel: false },
            Err(error) => WdaStage::Failed { error, tunnel: false },
        },
        None => match purpose {
            WdaPurpose::Control => {
                let token = match text::strip_prefix(phone, "iphone:") {
                    Some(t) => t,
                    None => text::own(phone),
                };
                match &settings.udid {
                    Some(c) => if usb_devices::is_valid_id(c.as_str()) {
                        go_to_phone(ports, text::own(c.as_str()))
                    } else {
                        fail("PHONEBRIDGE_IOS_UDID 格式无效", false)
                    },
                    None => if usb_devices::is_valid_id(token.as_str()) {
                        go_to_phone(ports, token)
                    } else {
                        WdaStage::LookUp { token }
                    },
                }
            },
            WdaPurpose::Check => {
                let stage = go_to_phone(ports, text::own(phone));
                match stage {
                    WdaStage::FindTool { udid } => if usb_devices::is_valid_id(udid.as_str()) {
                        WdaStage::FindTool { udid }
                    } else {
                        fail("iPhone UDID 格式无效，无法建立 WDA 隧道", false)
                    },
                    _ => stage,
                }
            },
        },
    }
}

/// The connection to a server at a port of this machine.
pub fn begin_at_port(port: u16) -> (r: WdaStage)
    ensures
        r@ == (WdaStage::Probe { endpoint: local_endpoint(port), udid: None, tunnel: false }),
{
    WdaStage::Probe { endpoint: at_local_port(port), udid: None, tunnel: false }
}

impl WdaStage<Seq<char>> {
    /// Whether a tunnel runs.
    pub open spec fn has_tunnel(self) -> bool {
        match self {
            WdaStage::Probe { tunnel, .. } => tunnel,
            WdaStage::OpenSession { tunnel, .. } => tunnel,
            WdaStage::ReadSize { tunnel, .. } => tunnel,
            WdaStage::EndSession { tunnel, .. } => tunnel,
            WdaStage::Answers { tunnel } => tunnel,
            WdaStage::Connected { tunnel, .. } => tunnel,
            WdaStage::Failed { tunnel, .. } => tunnel,
            _ => false,
        }
    }

    /// After the connected phones were listed.
    pub open spec fn after_list(
        self,
        ports: Map<Seq<char>, u16>,
        found: Result<Seq<char>, AdapterError<Seq<char>>>,
    ) -> WdaStage<Seq<char>> {
        match self {
            WdaStage::LookUp { token } => match found {
                Ok(udid) => with_phone(ports, udid),
                Err(error) => WdaStage::Failed { error, tunnel: false },
            },
            _ => self,
        }
    }

    /// After the tunnel tool was looked for.
    pub open spec fn after_tool(self, purpose: WdaPurpose, found: bool) -> WdaStage<Seq<char>> {
        match self {
            WdaStage::FindTool { udid } => if found {
                WdaStage::FindPort { udid }
            } else {
                match purpose {
                    WdaPurpose::Control => failed(
                        "未找到 iproxy；请把经过审计的跨平台 iproxy 放入应用 binaries/，或设置 PHONEBRIDGE_IPROXY_PATH"@,
                        false,
                    ),
                    WdaPurpose::Check => failed(
                        "未找到 iproxy，无法检测 iPhone 上的 WDA"@,
                        false,
                    ),
                }
            },
            _ => self,
        }
    }

    /// After a free port was looked for.
    pub open spec fn after_port(self, port: Result<u16, AdapterError<Seq<char>>>) -> WdaStage<
        Seq<char>,
    > {
        match self {
            WdaStage::FindPort { udid } => match port {
                Ok(port) => WdaStage::StartTunnel { udid, port },
                Err(error) => WdaStage::Failed { error, tunnel: false },
            },
            _ => self,
        }
    }

    /// After the tunnel was started; `failure` is why it was not.
    pub open spec fn after_tunnel(self, failure: Option<Seq<char>>) -> WdaStage<Seq<char>> {
        match self {
            WdaStage::StartTunnel { udid, port } => match failure {
                None => WdaStage::Probe {
                    endpoint: local_endpoint(port),
                    udid: Some(udid),
                    tunnel: true,
                },
                Some(why) => failed("启动 iproxy 失败："@ + why, false),
            },
            _ => self,
        }
    }

    /// After the server was asked for its status: `exited` where the tunnel has ended,
    /// `failure` where the server did not answer well, `time_left` where it may be asked again.
    pub open spec fn after_probe(
        self,
        purpose: WdaPurpose,
        existing: Option<Seq<char>>,
        exited: bool,
        failure: Option<AdapterError<Seq<char>>>,
        time_left: bool,
    ) -> WdaStage<Seq<char>> {
        match self {
            WdaStage::Probe { endpoint, udid, tunnel } => if tunnel && exited {
                match purpose {
                    WdaPurpose::Control => failed(
                        "iproxy 已退出，未能连接到 iPhone 上的 WDA"@,
                        tunnel,
                    ),
                    WdaPurpose::Check => failed("iproxy 已退出，iPhone 上的 WDA 没有响应"@, tunnel),
                }
            } else {
                match failure {
                    Some(error) => if time_left {
                        self
                    } else {
                        WdaStage::Failed { error, tunnel }
                    },
                    None => match purpose {
                        WdaPurpose::Check => WdaStage::Answers { tunnel },
                        WdaPurpose::Control => match existing {
                            None => WdaStage::OpenSession { endpoint, udid, tunnel },
                            Some(session) => if session.len() > 0 && wda_requests::is_safe(
                                session,
                            ) {
                                WdaStage::ReadSize { endpoint, session, owned: false, tunnel }
                            } else {
                                failed("PHONEBRIDGE_IOS_WDA_SESSION 格式无效"@, tunnel)
                            },
                        },
                    },
                }
            },
            _ => self,
        }
    }

    /// After a session was asked for.
    pub open spec fn after_session(self, given: Result<Seq<char>, AdapterError<Seq<char>>>) -> WdaStage<
        Seq<char>,
    > {
        match self {
            WdaStage::OpenSession { endpoint, udid, tunnel } => match given {
                Ok(session) => WdaStage::ReadSize { endpoint, session, owned: true, tunnel },
                Err(error) => WdaStage::Failed { error, tunnel },
            },
            _ => self,
        }
    }

    /// After the size of the screen was asked for; `other` is the size that is used where the
    /// server does not give one.
    pub open spec fn after_size(
        self,
        size: Result<ScreenSize, AdapterError<Seq<char>>>,
        other: Option<ScreenSize>,
    ) -> WdaStage<Seq<char>> {
        match self {
            WdaStage::ReadSize { endpoint, session, owned, tunnel } => match size {
                Ok(size) => WdaStage::Connected { session, owned, size, tunnel },
                Err(error) => match other {
                    Some(size) => WdaStage::Connected { session, owned, size, tunnel },
                    None => if owned {
                        WdaStage::EndSession { session, error, tunnel }
                    } else {
                        WdaStage::Failed { error, tunnel }
                    },
                },
            },
            _ => self,
        }
    }

    /// After the session was ended.
    pub open spec fn after_end(self) -> WdaStage<Seq<char>> {
        match self {
            WdaStage::EndSession { session, error, tunnel } => WdaStage::Failed { error, tunnel },
            _ => self,
        }
    }
}

pub open spec fn port_outcome(r: Result<u16, AdapterError>) -> Result<u16, AdapterError<Seq<char>>> {
    match r {
        Ok(p) => Ok(p),
        Err(e) => Err(e@),
    }
}

pub open spec fn failure_view(r: Result<(), AdapterError>) -> Option<AdapterError<Seq<char>>> {
    match r {
        Ok(_) => None,
        Err(e) => Some(e@),
    }
}

pub open spec fn opened_session(answer: Result<JsonValue, AdapterError>) -> Result<
    Seq<char>,
    AdapterError<Seq<char>>,
> {
    match answer {
        Ok(v) => wda_requests::session_given(v@),
        Err(e) => Err(e@),
    }
}

pub open spec fn read_window(answer: Result<JsonValue, AdapterError>) -> Result<
    ScreenSize,
    AdapterError<Seq<char>>,
> {
    match answer {
        Ok(v) => wda_requests::size_given(v@),
        Err(e) => Err(e@),
    }
}

pub open spec fn looked_up(devices: Seq<UsbDevice<Seq<char>>>, token: Seq<char>) -> Result<
    Seq<char>,
    AdapterError<Seq<char>>,
> {
    let found = usb_devices::raw_ids_behind(devices, token);
    if found.len() == 1 {
        Ok(found[0])
    } else if found.len() == 0 {
        Err(
            AdapterError::IosUsbUnavailable(
                "未找到与 "@ + token
                    + " 对应的已连接 iPhone UDID；请保持 USB 连接并解锁/信任此电脑"@,
            ),
        )
    } else {
        Err(
            AdapterError::IosUsbUnavailable(
                "多个 iPhone 使用相同的脱敏标识 "@ + token
                    + "，请使用 PHONEBRIDGE_IOS_UDID 指定目标"@,
            ),
        )
    }
}

impl WdaStage {
    /// Goes on with the connected phones.
    pub fn devices_listed(self, ports: &WdaEndpoints, devices: &Vec<UsbDevice>) -> (r: WdaStage)
        ensures
            r@ == self@.after_list(
                ports@,
                match self@ {
                    WdaStage::LookUp { token } => looked_up(usb_devices::views(devices@), token),
                    _ => Ok(Seq::empty()),
                },
            ),
    {
        match self {
            WdaStage::LookUp { token } => match usb_devices::resolve_ios_raw_id(
                devices,
                token.as_str(),
            ) {
                Ok(udid) => go_to_phone(ports, udid),
                Err(error) => WdaStage::Failed { error, tunnel: false },
            },
            _ => self,
        }
    }

    /// Goes on once the tunnel tool was looked for.
    pub fn tool_looked_for(self, purpose: WdaPurpose, found: bool) -> (r: WdaStage)
        ensures
            r@ == self@.after_tool(purpose, found),
    {
        match self {
            WdaStage::FindTool { udid } => if found {
                WdaStage::FindPort { udid }
            } else {
                match purpose {
                    WdaPurpose::Control => fail(
                        "未找到 iproxy；请把经过审计的跨平台 iproxy 放入应用 binaries/，或设置 PHONEBRIDGE_IPROXY_PATH",
                        false,
                    ),
                    WdaPurpose::Check => fail("未找到 iproxy，无法检测 iPhone 上的 WDA", false),
                }
            },
            _ => self,
        }
    }

    /// Goes on with a free port of this machine.
    pub fn port_found(self, port: Result<u16, AdapterError>) -> (r: WdaStage)
        ensures
            r@ == self@.after_port(port_outcome(port)),
    {
        match self {
            WdaStage::FindPort { udid } => match port {
                Ok(port) => WdaStage::StartTunnel { udid, port },
                Err(error) => WdaStage::Failed { error, tunnel: false },
            },
            _ => self,
        }
    }

    /// Goes on once the tunnel was started; `failure` is why it was not.
    pub fn tunnel_started(self, failure: Option<String>) -> (r: WdaStage)
        ensures
            r@ == self@.after_tunnel(text::opt_text(failure)),
    {
        match self {
            WdaStage::StartTunnel { udid, port } => match failure {
                None => WdaStage::Probe {
                    endpoint: at_local_port(port),
                    udid: Some(udid),
                    tunnel: true,
                },
                Some(why) => {
                    let s = text::cat2("启动 iproxy 失败：", why.as_str());
                    fail(s.as_str(), false)
                },
            },
            _ => self,
        }
    }

    /// Goes on once the server was asked for its status.
    pub fn probed(
        self,
        purpose: WdaPurpose,
        existing: &Option<String>,
        exited: bool,
        answer: Result<(), AdapterError>,
        time_left: bool,
    ) -> (r: WdaStage)
        ensures
            r@ == self@.after_probe(
                purpose,
                text::opt_text(*existing),
                exited,
                failure_view(answer),
                time_left,
            ),
    {
        match self {
            WdaStage::Probe { endpoint, udid, tunnel } => {
                if tunnel && exited {
                    return match purpose {
                        WdaPurpose::Control => fail(
                            "iproxy 已退出，未能连接到 iPhone 上的 WDA",
                            tunnel,
                        ),
                        WdaPurpose::Check => fail(
                            "iproxy 已退出，iPhone 上的 WDA 没有响应",
                            tunnel,
                        ),
                    };
                }
                match answer {
                    Err(error) => if time_left {
                        WdaStage::Probe { endpoint, udid, tunnel }
                    } else {
                        WdaStage::Failed { error, tunnel }
                    },
                    Ok(_) => match purpose {
                        WdaPurpose::Check => WdaStage::Answers { tunnel },
                        WdaPurpose::Control => match existing {
                            None => WdaStage::OpenSession { endpoint, udid, tunnel },
                            Some(session) => if wda_requests::safe_session_name(session.as_str()) {
                                WdaStage::ReadSize {
                                    endpoint,
                                    session: text::own(session.as_str()),
                                    owned: false,
                                    tunnel,
                                }
                            } else {
                                fail("PHONEBRIDGE_IOS_WDA_SESSION 格式无效", tunnel)
                            },
                        },
                    },
                }
            },
            _ => self,
        }
    }

    /// Goes on with the answer to a request for a session.
    pub fn session_answered(self, answer: Result<JsonValue, AdapterError>) -> (r: WdaStage)
        ensures
            r@ == self@.after_session(opened_session(answer)),
    {
        match self {
            WdaStage::OpenSession { endpoint, udid, tunnel } => {
                let given = match answer {
                    Ok(v) => wda_requests::read_session(&v),
                    Err(e) => Err(e),
                };
                match given {
                    Ok(session) => WdaStage::ReadSize { endpoint, session, owned: true, tunnel },
                    Err(error) => WdaStage::Failed { error, tunnel },
                }
            },
            _ => self,
        }
    }

    /// Goes on with the answer to a request for the size of the screen.
    pub fn size_answered(
        self,
        answer: Result<JsonValue, AdapterError>,
        other: Option<ScreenSize>,
    ) -> (r: WdaStage)
        ensures
            r@ == self@.after_size(read_window(answer), other),
    {
        match self {
            WdaStage::ReadSize { endpoint, session, owned, tunnel } => {
                let size = match answer {
                    Ok(v) => wda_requests::read_size(&v),
                    Err(e) => Err(e),
                };
                match size {
                    Ok(size) => WdaStage::Connected { session, owned, size, tunnel },
                    Err(error) => match other {
                        Some(size) => WdaStage::Connected { session, owned, size, tunnel },
                        None => if owned {
                            WdaStage::EndSession { session, error, tunnel }
                        } else {
                            WdaStage::Failed { error, tunnel }
                        },
                    },
                }
            },
            _ => self,
        }
    }

    /// Goes on once the session was ended.
    pub fn session_ended(self) -> (r: WdaStage)
        ensures
            r@ == self@.after_end(),
    {
        match self {
            WdaStage::EndSession { session, error, tunnel } => WdaStage::Failed { error, tunnel },
            _ => self,
        }
    }

    /// The control of the phone that a connection has led to.
    pub fn control(&self) -> (r: Option<IosUsbControl>)
        ensures
            match r {
                Some(c) => control_of(self@) == Some(c@),
                None => control_of(self@) is None,
            },
    {
        match self {
            WdaStage::Connected { session, owned, size, tunnel: _ } => Some(
                IosUsbControl {
                    session_id: text::own(session.as_str()),
                    target_size: *size,
                    pointer_active: false,
                    owns_session: *owned,
                },
            ),
            _ => None,
        }
    }
}

/// A tunnel that was started is known at every later stage, so that a connection that fails
/// stops it.
pub proof fn tunnels_are_accounted_for(
    s: WdaStage<Seq<char>>,
    ports: Map<Seq<char>, u16>,
    purpose: WdaPurpose,
    existing: Option<Seq<char>>,
    found: Result<Seq<char>, AdapterError<Seq<char>>>,
    flag: bool,
    time_left: bool,
    port: Result<u16, AdapterError<Seq<char>>>,
    failure: Option<AdapterError<Seq<char>>>,
    size: Result<ScreenSize, AdapterError<Seq<char>>>,
    other: Option<ScreenSize>,
)
    requires
        s.has_tunnel(),
    ensures
        s.after_list(ports, found).has_tunnel(),
        s.after_tool(purpose, flag).has_tunnel(),
        s.after_port(port).has_tunnel(),
        s.after_tunnel(existing).has_tunnel(),
        s.after_probe(purpose, existing, flag, failure, time_left).has_tunnel(),
        s.after_session(found).has_tunnel(),
        s.after_size(size, other).has_tunnel(),
        s.after_end().has_tunnel(),
{
}

/// A connection to a phone without a port of its own goes step by step: the tunnel tool, a free
/// port, the tunnel to that port, the server on it, a session, the size of the screen. Where each
/// step succeeds, the phone is controlled through the session that was given, on the screen of
/// the size that was read, and the session and the tunnel count as the connection's own.
pub proof fn connections_go_step_by_step(
    udid: Seq<char>,
    port: u16,
    session: Seq<char>,
    size: ScreenSize,
    other: Option<ScreenSize>,
    time_left: bool,
)
    ensures
        ({
            let tool = WdaStage::FindTool { udid };
            let free = tool.after_tool(WdaPurpose::Control, true);
            let tunnel = free.after_port(Ok(port));
            let probe = tunnel.after_tunnel(None);
            let open = probe.after_probe(WdaPurpose::Control, None, false, None, time_left);
            let read = open.after_session(Ok(session));
            let done = read.after_size(Ok(size), other);
            &&& free matches WdaStage::FindPort { udid: u } && u == udid
            &&& tunnel matches WdaStage::StartTunnel { udid: u, port: p } && u == udid && p == port
            &&& probe matches WdaStage::Probe { endpoint, udid: u, tunnel: t } && endpoint.host
                == "127.0.0.1"@ && endpoint.port == port && u == Some(udid) && t
            &&& open matches WdaStage::OpenSession { endpoint, udid: u, tunnel: t } && endpoint.port
                == port && u == Some(udid) && t
            &&& read matches WdaStage::ReadSize { endpoint, session: s, owned, tunnel: t }
                && endpoint.port == port && s == session && owned && t
            &&& done matches WdaStage::Connected { session: s, owned, size: z, tunnel: t } && s
                == session && owned && z == size && t
        }),
{
}

/// A connection that fails at a step has failed with that step's reason, and nothing is tried
/// after it; a server that does not answer is asked again only while there is time, and a tunnel
/// that ended is not waited for.
pub proof fn connections_fail_where_a_step_fails(
    udid: Seq<char>,
    port: u16,
    endpoint: LoopbackEndpoint<Seq<char>>,
    phone: Option<Seq<char>>,
    tunnel: bool,
    e: AdapterError<Seq<char>>,
    purpose: WdaPurpose,
    existing: Option<Seq<char>>,
)
    ensures
        (WdaStage::FindTool { udid }).after_tool(purpose, false) matches WdaStage::Failed {
            tunnel: t,
            ..
        } && !t,
        (WdaStage::FindPort { udid }).after_port(Err(e)) == (WdaStage::Failed {
            error: e,
            tunnel: false,
        }),
        (WdaStage::StartTunnel { udid, port }).after_tunnel(Some(udid)) matches WdaStage::Failed {
            tunnel: t,
            ..
        } && !t,
        ({
            let p = WdaStage::Probe { endpoint, udid: phone, tunnel };
            &&& p.after_probe(purpose, existing, false, Some(e), true) == p
            &&& p.after_probe(purpose, existing, false, Some(e), false) == (WdaStage::Failed {
                error: e,
                tunnel,
            })
            &&& tunnel ==> p.after_probe(purpose, existing, true, Some(e), true) is Failed
                && p.after_probe(purpose, existing, true, None, true) is Failed
            &&& p.after_probe(WdaPurpose::Check, existing, false, None, true) matches
                WdaStage::Answers { tunnel: t } && t == tunnel
        }),
        (WdaStage::OpenSession { endpoint, udid: phone, tunnel }).after_session(Err(e)) == (
        WdaStage::Failed { error: e, tunnel }),
        (WdaStage::Failed { error: e, tunnel }).after_end() == (WdaStage::Failed {
            error: e,
            tunnel,
        }),
{
}

/// A session that is already open is used as it is where its name is safe, and does not count as
/// the connection's own; it is never ended for a size that could not be read.
pub proof fn open_sessions_are_used_and_left(
    endpoint: LoopbackEndpoint<Seq<char>>,
    phone: Option<Seq<char>>,
    tunnel: bool,
    session: Seq<char>,
    size: ScreenSize,
    e: AdapterError<Seq<char>>,
    time_left: bool,
)
    ensures
        ({
            let p = WdaStage::Probe { endpoint, udid: phone, tunnel };
            let r = p.after_probe(WdaPurpose::Control, Some(session), false, None, time_left);
            &&& session.len() > 0 && wda_requests::is_safe(session) ==> r.after_size(Ok(size), None)
                == (WdaStage::Connected { session, owned: false, size, tunnel })
            &&& session.len() > 0 && wda_requests::is_safe(session) ==> r.after_size(Err(e), None)
                == (WdaStage::Failed { error: e, tunnel })
            &&& session.len() == 0 || !wda_requests::is_safe(session) ==> r is Failed
        }),
        (WdaStage::ReadSize { endpoint, session, owned: true, tunnel }).after_size(
            Err(e),
            None,
        ) == (WdaStage::EndSession { session, error: e, tunnel }),
        (WdaStage::EndSession { session, error: e, tunnel }).after_end() == (WdaStage::Failed {
            error: e,
            tunnel,
        }),
        (WdaStage::ReadSize { endpoint, session, owned: true, tunnel }).after_size(
            Err(e),
            Some(size),
        ) == (WdaStage::Connected { session, owned: true, size, tunnel }),
{
}

/// A connection begins with what is known best: a URL that was given, else the port that the
/// phone has on this machine, else a tunnel to it, else a look for it.
pub proof fn connections_begin_with_what_is_known(
    url: Seq<char>,
    endpoint: LoopbackEndpoint<Seq<char>>,
    configured: Option<Seq<char>>,
    ports: Map<Seq<char>, u16>,
    purpose: WdaPurpose,
    udid: Seq<char>,
    phone: Seq<char>,
)
    ensures
        endpoint_of(url) == Ok::<_, AdapterError<Seq<char>>>(endpoint) ==> first_stage(
            Some(url),
            configured,
            ports,
            purpose,
            phone,
        ) == (WdaStage::Probe { endpoint, udid: None, tunnel: false }),
        endpoint_of(url) is Err ==> first_stage(Some(url), configured, ports, purpose, phone)
            is Failed,
        usb_devices::valid_id(udid) ==> {
            let c = first_stage(None, Some(udid), ports, WdaPurpose::Control, phone);
            let k = first_stage(None, configured, ports, WdaPurpose::Check, udid);
            &&& ports.contains_key(udid) ==> (c matches WdaStage::Probe {
                endpoint: e,
                udid: u,
                tunnel,
            } && e.port == ports[udid] && u == Some(udid) && !tunnel && k == c)
            &&& !ports.contains_key(udid) ==> (c matches WdaStage::FindTool { udid: u } && u == udid
                && k == c)
        },
        !usb_devices::valid_id(udid) ==> first_stage(
            None,
            Some(udid),
            ports,
            WdaPurpose::Control,
            phone,
        ) is Failed,
        !usb_devices::valid_id(phone_token(phone)) ==> (first_stage(
            None,
            None,
            ports,
            WdaPurpose::Control,
            phone,
        ) matches WdaStage::LookUp { token } && token == phone_token(phone)),
        phone_token("iphone:"@ + udid) == udid,
{
    let s = "iphone:"@ + udid;
    assert(s.subrange(0, "iphone:"@.len() as int) =~= "iphone:"@);
    assert(s.skip("iphone:"@.len() as int) =~= udid);
}

/// No connection leads to an endpoint other than one of this machine.
pub proof fn connections_stay_on_this_machine(
    url: Option<Seq<char>>,
    configured: Option<Seq<char>>,
    ports: Map<Seq<char>, u16>,
    purpose: WdaPurpose,
    phone: Seq<char>,
    udid: Seq<char>,
    port: u16,
)
    ensures
        first_stage(url, configured, ports, purpose, phone) matches WdaStage::Probe {
            endpoint,
            ..
        } ==> is_loopback(endpoint.host),
        with_phone(ports, udid) matches WdaStage::Probe { endpoint, .. } ==> is_loopback(
            endpoint.host,
        ),
        (WdaStage::StartTunnel { udid, port }).after_tunnel(None) matches WdaStage::Probe {
            endpoint,
            ..
        } ==> is_loopback(endpoint.host),
{
}

/// A session that a connection opened itself is ended where the connection fails after it.
pub proof fn own_sessions_are_ended(
    endpoint: LoopbackEndpoint<Seq<char>>,
    session: Seq<char>,
    tunnel: bool,
    size: Result<ScreenSize, AdapterError<Seq<char>>>,
    other: Option<ScreenSize>,
)
    ensures
        !((WdaStage::ReadSize { endpoint, session, owned: true, tunnel }).after_size(
            size,
            other,
        ) is Failed),
{
}

// ---------------------------------------------------------------------------
// Input
// ---------------------------------------------------------------------------

/// The character that stands for a key which types none.
pub open spec fn special_key(code: Seq<char>) -> Option<Seq<char>> {
    if code == "Backspace"@ {
        Some("\u{E003}"@)
    } else if code == "Tab"@ {
        Some("\u{E004}"@)
    } else if code == "Enter"@ || code == "NumpadEnter"@ {
        Some("\u{E007}"@)
    } else if code == "ShiftLeft"@ || code == "ShiftRight"@ {
        Some("\u{E008}"@)
    } else if code == "ControlLeft"@ || code == "ControlRight"@ {
        Some("\u{E009}"@)
    } else if code == "AltLeft"@ || code == "AltRight"@ {
        Some("\u{E00A}"@)
    } else if code == "Escape"@ {
        Some("\u{E00C}"@)
    } else if code == "PageUp"@ {
        Some("\u{E00E}"@)
    } else if code == "PageDown"@ {
        Some("\u{E00F}"@)
    } else if code == "End"@ {
        Some("\u{E010}"@)
    } else if code == "Home"@ {
        Some("\u{E011}"@)
    } else if code == "ArrowLeft"@ {
        Some("\u{E012}"@)
    } else if code == "ArrowUp"@ {
        Some("\u{E013}"@)
    } else if code == "ArrowRight"@ {
        Some("\u{E014}"@)
    } else if code == "ArrowDown"@ {
        Some("\u{E015}"@)
    } else if code == "Insert"@ {
        Some("\u{E016}"@)
    } else if code == "Delete"@ {
        Some("\u{E017}"@)
    } else if code == "MetaLeft"@ || code == "MetaRight"@ {
        Some("\u{E03D}"@)
    } else if code == "F1"@ {
        Some("\u{E031}"@)
    } else if code == "F2"@ {
        Some("\u{E032}"@)
    } else if code == "F3"@ {
        Some("\u{E033}"@)
    } else if code == "F4"@ {
        Some("\u{E034}"@)
    } else if code == "F5"@ {
        Some("\u{E035}"@)
    } else if code == "F6"@ {
        Some("\u{E036}"@)
    } else if code == "F7"@ {
        Some("\u{E037}"@)
    } else if code == "F8"@ {
        Some("\u{E038}"@)
    } else if code == "F9"@ {
        Some("\u{E039}"@)
    } else if code == "F10"@ {
        Some("\u{E03A}"@)
    } else if code == "F11"@ {
        Some("\u{E03B}"@)
    } else if code == "F12"@ {
        Some("\u{E03C}"@)
    } else {
        None
    }
}

fn find_special_key(code: &str) -> (r: Option<&'static str>)
    ensures
        match r {
            Some(s) => special_key(code@) == Some(s@),
            None => special_key(code@) is None,
        },
{
    if text::same(code, "Backspace") {
        Some("\u{E003}")
    } else if text::same(code, "Tab") {
        Some("\u{E004}")
    } else if text::same(code, "Enter") || text::same(code, "NumpadEnter") {
        Some("\u{E007}")
    } else if text::same(code, "ShiftLeft") || text::same(code, "ShiftRight") {
        Some("\u{E008}")
    } else if text::same(code, "ControlLeft") || text::same(code, "ControlRight") {
        Some("\u{E009}")
    } else if text::same(code, "AltLeft") || text::same(code, "AltRight") {
        Some("\u{E00A}")
    } else if text::same(code, "Escape") {
        Some("\u{E00C}")
    } else if text::same(code, "PageUp") {
        Some("\u{E00E}")
    } else if text::same(code, "PageDown") {
        Some("\u{E00F}")
    } else if text::same(code, "End") {
        Some("\u{E010}")
    } else if text::same(code, "Home") {
        Some("\u{E011}")
    } else if text::same(code, "ArrowLeft") {
        Some("\u{E012}")
    } else if text::same(code, "ArrowUp") {
        Some("\u{E013}")
    } else if text::same(code, "ArrowRight") {
        Some("\u{E014}")
    } else if text::same(code, "ArrowDown") {
        Some("\u{E015}")
    } else if text::same(code, "Insert") {
        Some("\u{E016}")
    } else if text::same(code, "Delete") {
        Some("\u{E017}")
    } else if text::same(code, "MetaLeft") || text::same(code, "MetaRight") {
        Some("\u{E03D}")
    } else if text::same(code, "F1") {
        Some("\u{E031}")
    } else if text::same(code, "F2") {
        Some("\u{E032}")
    } else if text::same(code, "F3") {
        Some("\u{E033}")
    } else if text::same(code, "F4") {
        Some("\u{E034}")
    } else if text::same(code, "F5") {
        Some("\u{E035}")
    } else if text::same(code, "F6") {
        Some("\u{E036}")
    } else if text::same(code, "F7") {
        Some("\u{E037}")
    } else if text::same(code, "F8") {
        Some("\u{E038}")
    } else if text::same(code, "F9") {
        Some("\u{E039}")
    } else if text::same(code, "F10") {
        Some("\u{E03A}")
    } else if text::same(code, "F11") {
        Some("\u{E03B}")
    } else if text::same(code, "F12") {
        Some("\u{E03C}")
    } else {
        None
    }
}

/// The character of a key: that of a key which types none, else the one that the key types.
pub open spec fn key_value(code: Seq<char>, key: Seq<char>) -> Option<Seq<char>> {
    match special_key(code) {
        Some(s) => Some(s),
        None => if key.len() == 1 {
            Some(key)
        } else {
            None
        },
    }
}

/// The character of a key.
pub fn webdriver_key_value(code: &str, key: &str) -> (r: Option<String>)
    ensures
        text::opt_text(r) == key_value(code@, key@),
{
    match find_special_key(code) {
        Some(s) => Some(text::own(s)),
        None => if text::chars_of(key).len() == 1 {
            Some(text::own(key))
        } else {
            None
        },
    }
}

/// Control of an iPhone through an open session.
#[derive(Debug)]
pub struct IosUsbControl<T = String> {
    pub session_id: T,
    pub target_size: ScreenSize,
    pub pointer_active: bool,
    pub owns_session: bool,
}

impl View for IosUsbControl<String> {
    type V = IosUsbControl<Seq<char>>;

    open spec fn view(&self) -> IosUsbControl<Seq<char>> {
        IosUsbControl {
            session_id: self.session_id@,
            target_size: self.target_size,
            pointer_active: self.pointer_active,
            owns_session: self.owns_session,
        }
    }
}

/// What is reported where a size has no area.
pub open spec fn no_area() -> AdapterError<Seq<char>> {
    AdapterError::IosUsbUnavailable("iOS WDA 坐标尺寸无效"@)
}

fn report_no_area() -> (r: AdapterError)
    ensures
        r@ == no_area(),
{
    AdapterError::IosUsbUnavailable(text::own("iOS WDA 坐标尺寸无效"))
}

/// The modifiers that are held, in the order in which they go down.
pub open spec fn held(ctrl: bool, shift: bool, alt: bool, meta: bool) -> Seq<Seq<char>> {
    let none = Seq::<Seq<char>>::empty();
    (if ctrl {
        seq!["\u{E009}"@]
    } else {
        none
    }) + (if shift {
        seq!["\u{E008}"@]
    } else {
        none
    }) + (if alt {
        seq!["\u{E00A}"@]
    } else {
        none
    }) + (if meta {
        seq!["\u{E03D}"@]
    } else {
        none
    })
}

/// The steps of a key stroke: the modifiers go down, the key goes down and up, and the
/// modifiers go up in the opposite order.
pub open spec fn stroke_steps(modifiers: Seq<Seq<char>>, value: Seq<char>) -> Seq<
    (bool, Seq<char>),
> {
    let n = modifiers.len();
    Seq::new(
        2 * n + 2,
        |i: int|
            if i < n {
                (true, modifiers[i])
            } else if i == n {
                (true, value)
            } else if i == n + 1 {
                (false, value)
            } else {
                (false, modifiers[2 * n + 1 - i])
            },
    )
}

fn held_modifiers(ctrl: bool, shift: bool, alt: bool, meta: bool) -> (r: Vec<String>)
    ensures
        text::texts(r@) == held(ctrl, shift, alt, meta),
        r@.len() <= 4,
{
    let mut out: Vec<String> = Vec::new();
    if ctrl {
        out.push(text::own("\u{E009}"));
    }
    if shift {
        out.push(text::own("\u{E008}"));
    }
    if alt {
        out.push(text::own("\u{E00A}"));
    }
    if meta {
        out.push(text::own("\u{E03D}"));
    }
    assert(text::texts(out@) =~= held(ctrl, shift, alt, meta));
    out
}

/// The requests that type a text.
pub open spec fn typing_requests(session: Seq<char>, s: Seq<char>) -> Seq<WdaRequest<Seq<char>>> {
    let all = wda_requests::batches_from(s, 0);
    Seq::new(
        all.len(),
        |i: int|
            wda_requests::sending(
                "/session/"@ + session + "/wda/keys"@,
                wda_requests::typing_body(all[i]),
            ),
    )
}

/// The requests that end what is pressed.
pub open spec fn releasing_requests(session: Seq<char>, pressed: bool) -> Seq<
    WdaRequest<Seq<char>>,
> {
    if session.len() == 0 {
        Seq::empty()
    } else {
        let path = "/session/"@ + session + "/actions"@;
        (if pressed {
            seq![
                wda_requests::sending(
                    path,
                    wda_requests::touch_body(seq![wda_requests::pointer_button_action(false)]),
                ),
            ]
        } else {
            Seq::empty()
        }) + seq![wda_requests::bare(wda_requests::WdaMethod::Delete, path)]
    }
}

/// The requests that end the control: what is pressed is released, and a session that was opened
/// for it is ended.
pub open spec fn closing_requests(session: Seq<char>, pressed: bool, owned: bool) -> Seq<
    WdaRequest<Seq<char>>,
> {
    releasing_requests(session, pressed) + (if owned && session.len() > 0 {
        seq![
            wda_requests::bare(wda_requests::WdaMethod::Delete, "/session/"@ + session + ""@),
        ]
    } else {
        Seq::empty()
    })
}

/// The body that moves the finger to a point of the picture.
pub open spec fn moved_body(source: ScreenSize, target: ScreenSize, x: u32, y: u32) -> Json {
    let (a, b) = mapped_point(source, target, x, y)->Some_0;
    wda_requests::move_body(a, b)
}

/// The body that presses or releases the finger at a point of the picture.
pub open spec fn pressed_body(
    source: ScreenSize,
    target: ScreenSize,
    x: u32,
    y: u32,
    pressed: bool,
) -> Json {
    let (a, b) = mapped_point(source, target, x, y)->Some_0;
    wda_requests::button_body(a, b, pressed)
}

/// The body that scrolls in the middle of the screen.
pub open spec fn wheel_body(size: ScreenSize, delta_y: i32) -> Json {
    wda_requests::source_body(
        "phonebridge-wheel"@,
        "wheel"@,
        seq![wda_requests::scroll_action(size.width / 2, size.height / 2, delta_y)],
    )
}

impl IosUsbControl {
    /// The size of the screen of the phone.
    pub fn target_size(&self) -> (r: ScreenSize)
        ensures
            r == self.target_size,
    {
        self.target_size
    }

    /// The request that moves the pointer; none while it is not pressed.
    pub fn pointer_move(&self, source: ScreenSize, x: u32, y: u32) -> (r: Result<
        Option<WdaRequest>,
        AdapterError,
    >)
        ensures
            match r {
                Ok(q) => has_area(source) && has_area(self.target_size) && (if self.pointer_active {
                    match q {
                        Some(q) => wda_requests::sending_in(
                            self.session_id@,
                            "/actions"@,
                            moved_body(source, self.target_size, x, y),
                        ) == Ok::<_, AdapterError<Seq<char>>>(q@),
                        None => false,
                    }
                } else {
                    q is None
                }),
                Err(e) => if !has_area(source) || !has_area(self.target_size) {
                    e@ == no_area()
                } else {
                    self.pointer_active && self.session_id@.len() == 0 && e@
                        == AdapterError::IosUsbUnavailable("WDA 会话尚未建立"@)
                },
            },
    {
        match map_absolute_point(source, self.target_size, x, y) {
            None => Err(report_no_area()),
            Some((a, b)) => {
                if !self.pointer_active {
                    return Ok(None);
                }
                match wda_requests::move_request(self.session_id.as_str(), a, b) {
                    Ok(q) => Ok(Some(q)),
                    Err(e) => Err(e),
                }
            },
        }
    }

    /// The request that presses or releases the pointer at a point.
    pub fn pointer_button(&self, source: ScreenSize, x: u32, y: u32, pressed: bool) -> (r: Result<
        WdaRequest,
        AdapterError,
    >)
        ensures
            wda_requests::request_outcome(r) == (if !has_area(source) || !has_area(
                self.target_size,
            ) {
                Err(no_area())
            } else {
                wda_requests::sending_in(
                    self.session_id@,
                    "/actions"@,
                    pressed_body(source, self.target_size, x, y, pressed),
                )
            }),
    {
        match map_absolute_point(source, self.target_size, x, y) {
            None => Err(report_no_area()),
            Some((a, b)) => wda_requests::button_request(self.session_id.as_str(), a, b, pressed),
        }
    }

    /// Notes what came of pressing or releasing the pointer: only what was sent counts.
    pub fn button_sent(&mut self, pressed: bool, sent: bool)
        ensures
            final(self)@ == (IosUsbControl {
                pointer_active: if sent {
                    pressed
                } else {
                    old(self)@.pointer_active
                },
                ..old(self)@
            }),
    {
        if sent {
            self.pointer_active = pressed;
        }
    }

    /// The request that scrolls in the middle of the screen.
    pub fn wheel(&self, delta_y: i32) -> (r: Result<WdaRequest, AdapterError>)
        ensures
            wda_requests::request_outcome(r) == wda_requests::sending_in(
                self.session_id@,
                "/actions"@,
                wheel_body(self.target_size, delta_y),
            ),
    {
        wda_requests::scroll_request(
            self.session_id.as_str(),
            self.target_size.width / 2,
            self.target_size.height / 2,
            delta_y,
        )
    }

    /// The request that strokes a key.
    pub fn key_stroke(
        &self,
        code: &str,
        key: &str,
        ctrl: bool,
        shift: bool,
        alt: bool,
        meta: bool,
    ) -> (r: Result<WdaRequest, AdapterError>)
        ensures
            wda_requests::request_outcome(r) == (match key_value(code@, key@) {
                None => Err(AdapterError::Failed("未映射的 iOS WDA 按键："@ + code@)),
                Some(value) => wda_requests::sending_in(
                    self.session_id@,
                    "/actions"@,
                    wda_requests::source_body(
                        "phonebridge-keyboard"@,
                        "key"@,
                        wda_requests::key_actions(
                            stroke_steps(held(ctrl, shift, alt, meta), value),
                        ),
                    ),
                ),
            }),
    {
        let value = match webdriver_key_value(code, key) {
            None => {
                return Err(AdapterError::Failed(text::cat2("未映射的 iOS WDA 按键：", code)));
            },
            Some(v) => v,
        };
        let modifiers = held_modifiers(ctrl, shift, alt, meta);
        let n: usize = modifiers.len();
        let ghost names = text::texts(modifiers@);
        let ghost all = stroke_steps(names, value@);
        let mut steps: Vec<(bool, String)> = Vec::new();
        let mut i: usize = 0;
        while i < n
            invariant
                i <= n,
                n == modifiers@.len(),
                n <= 4,
                names == text::texts(modifiers@),
                all == stroke_steps(names, value@),
                steps@.len() == i,
                forall|j: int| 0 <= j < i ==> (#[trigger] steps@[j]).0 == all[j].0 && steps@[j].1@
                    == all[j].1,
            decreases n - i,
        {
            assert(names[i as int] == modifiers@[i as int]@);
            steps.push((true, text::own(modifiers[i].as_str())));
            i = i + 1;
        }
        steps.push((true, text::own(value.as_str())));
        steps.push((false, text::own(value.as_str())));
        let mut k: usize = n;
        while k > 0
            invariant
                k <= n,
                n == modifiers@.len(),
                n <= 4,
                names == text::texts(modifiers@),
                all == stroke_steps(names, value@),
                steps@.len() == 2 * n + 2 - k,
                forall|j: int|
                    0 <= j < steps@.len() ==> (#[trigger] steps@[j]).0 == all[j].0 && steps@[j].1@
                        == all[j].1,
            decreases k,
        {
            k = k - 1;
            assert(names[k as int] == modifiers@[k as int]@);
            steps.push((false, text::own(modifiers[k].as_str())));
        }
        assert(wda_requests::key_steps(steps@) =~= all);
        wda_requests::key_request(self.session_id.as_str(), &steps)
    }

    /// The requests that type a text, in batches.
    pub fn text(&self, s: &str) -> (r: Result<Vec<WdaRequest>, AdapterError>)
        ensures
            match r {
                Ok(v) => (s@.len() == 0 || self.session_id@.len() > 0) && wda_requests::requests(
                    v@,
                ) == typing_requests(self.session_id@, s@),
                Err(e) => s@.len() > 0 && self.session_id@.len() == 0 && e@
                    == AdapterError::IosUsbUnavailable("WDA 会话尚未建立"@),
            },
    {
        let batches = wda_requests::text_batches(s);
        let ghost all = typing_requests(self.session_id@, s@);
        let mut out: Vec<WdaRequest> = Vec::new();
        let mut i: usize = 0;
        while i < batches.len()
            invariant
                i <= batches@.len(),
                text::texts(batches@) == wda_requests::batches_from(s@, 0),
                all == typing_requests(self.session_id@, s@),
                out@.len() == i,
                i > 0 ==> self.session_id@.len() > 0,
                forall|j: int| 0 <= j < i ==> #[trigger] out@[j]@ == all[j],
            decreases batches@.len() - i,
        {
            assert(wda_requests::batches_from(s@, 0)[i as int] == batches@[i as int]@);
            match wda_requests::typing_request(self.session_id.as_str(), batches[i].as_str()) {
                Ok(q) => {
                    assert(q@ == all[i as int]);
                    out.push(q);
                },
                Err(e) => {
                    return Err(e);
                },
            }
            i = i + 1;
        }
        assert(wda_requests::requests(out@) =~= all);
        Ok(out)
    }

    /// The requests that end what is pressed, after which nothing is.
    pub fn release_all(&mut self) -> (r: Vec<WdaRequest>)
        ensures
            final(self)@ == (IosUsbControl { pointer_active: false, ..old(self)@ }),
            wda_requests::requests(r@) == releasing_requests(
                old(self)@.session_id,
                old(self)@.pointer_active,
            ),
    {
        let mut out: Vec<WdaRequest> = Vec::new();
        if self.pointer_active {
            match wda_requests::lift_request(self.session_id.as_str()) {
                Ok(q) => {
                    out.push(q);
                },
                Err(_) => {},
            }
            self.pointer_active = false;
        }
        match wda_requests::release_request(self.session_id.as_str()) {
            Ok(q) => {
                out.push(q);
            },
            Err(_) => {},
        }
        assert(wda_requests::requests(out@) =~= releasing_requests(
            old(self)@.session_id,
            old(self)@.pointer_active,
        ));
        out
    }

    /// The requests that end the control: what is pressed is released, and a session that was
    /// opened for it is ended.
    pub fn close(&mut self) -> (r: Vec<WdaRequest>)
        ensures
            final(self)@ == (IosUsbControl {
                pointer_active: false,
                session_id: if old(self)@.owns_session {
                    Seq::empty()
                } else {
                    old(self)@.session_id
                },
                ..old(self)@
            }),
            wda_requests::requests(r@) == closing_requests(
                old(self)@.session_id,
                old(self)@.pointer_active,
                old(self)@.owns_session,
            ),
    {
        let mut out = self.release_all();
        let ghost first = wda_requests::requests(out@);
        if self.owns_session {
            match wda_requests::end_request(self.session_id.as_str()) {
                Ok(q) => {
                    let ghost before = out@;
                    out.push(q);
                    assert(wda_requests::requests(out@) =~= first + seq![q@]);
                },
                Err(_) => {
                    assert(wda_requests::requests(out@) =~= first + Seq::<
                        WdaRequest<Seq<char>>,
                    >::empty());
                },
            }
            self.session_id = String::new();
            assert(self.session_id@ =~= Seq::<char>::empty());
        } else {
            assert(wda_requests::requests(out@) =~= first + Seq::<
                WdaRequest<Seq<char>>,
            >::empty());
        }
        out
    }
}

/// Releasing ends all actions of the session, and lifts the finger first where one is down;
/// without a session there is nothing to send.
pub proof fn releases_end_the_actions(session: Seq<char>, pressed: bool)
    ensures
        ({
            let all = releasing_requests(session, pressed);
            &&& session.len() == 0 ==> all.len() == 0
            &&& session.len() > 0 ==> all.len() == if pressed {
                2int
            } else {
                1
            }
            &&& session.len() > 0 ==> all.last().method is Delete && all.last().body is None
                && all.last().path == "/session/"@ + session + "/actions"@
            &&& session.len() > 0 && pressed ==> all[0].method is Post && all[0].path
                == all.last().path && all[0].body == Some(
                json::text_of_json(wda_requests::lift_body()),
            )
        }),
{
}

/// Ending control releases what is pressed and then ends the session exactly where it was opened
/// for it; a session of another is left open.
pub proof fn own_sessions_end_with_control(session: Seq<char>, pressed: bool, owned: bool)
    ensures
        ({
            let all = closing_requests(session, pressed, owned);
            let first = releasing_requests(session, pressed);
            &&& first.is_prefix_of(all)
            &&& !owned || session.len() == 0 ==> all == first
            &&& owned && session.len() > 0 ==> all.len() == first.len() + 1 && all.last().method
                is Delete && all.last().path == "/session/"@ + session && all.last().body is None
        }),
{
    reveal_strlit("");
    let all = closing_requests(session, pressed, owned);
    let first = releasing_requests(session, pressed);
    assert(all.subrange(0, first.len() as int) =~= first);
    assert("/session/"@ + session + ""@ =~= "/session/"@ + session);
    if !owned || session.len() == 0 {
        assert(all =~= first);
    }
}

/// A wheel scrolls in the middle of the screen, by the distance that is given.
pub proof fn wheels_scroll_in_the_middle(size: ScreenSize, delta_y: i32)
    ensures
        ({
            let steps = wda_requests::steps_in(wheel_body(size, delta_y));
            &&& steps.len() == 1
            &&& steps[0].get("type"@) == Some(Json::Text("scroll"@))
            &&& steps[0].get("deltaY"@) == Some(Json::Integer(delta_y as int))
            &&& steps[0].get("x"@) matches Some(Json::Integer(x)) && 2 * x <= size.width < 2 * x + 2
            &&& steps[0].get("y"@) matches Some(Json::Integer(y)) && 2 * y <= size.height < 2 * y
                + 2
        }),
{
    wda_requests::pointer_steps_read_back(size.width / 2, size.height / 2, true, delta_y);
    wda_requests::bodies_hold_their_steps(
        seq![wda_requests::scroll_action(size.width / 2, size.height / 2, delta_y)],
        "phonebridge-wheel"@,
        "wheel"@,
    );
}

/// The codes of the keys for which a character of the private area stands, as the WebDriver
/// protocol has them; the two are the same where there is only one such key.
pub open spec fn keys_of_private(n: u32) -> Option<(Seq<char>, Seq<char>)> {
    if n == 0xE003 {
        Some(("Backspace"@, "Backspace"@))
    } else if n == 0xE004 {
        Some(("Tab"@, "Tab"@))
    } else if n == 0xE007 {
        Some(("Enter"@, "NumpadEnter"@))
    } else if n == 0xE008 {
        Some(("ShiftLeft"@, "ShiftRight"@))
    } else if n == 0xE009 {
        Some(("ControlLeft"@, "ControlRight"@))
    } else if n == 0xE00A {
        Some(("AltLeft"@, "AltRight"@))
    } else if n == 0xE00C {
        Some(("Escape"@, "Escape"@))
    } else if n == 0xE00E {
        Some(("PageUp"@, "PageUp"@))
    } else if n == 0xE00F {
        Some(("PageDown"@, "PageDown"@))
    } else if n == 0xE010 {
        Some(("End"@, "End"@))
    } else if n == 0xE011 {
        Some(("Home"@, "Home"@))
    } else if n == 0xE012 {
        Some(("ArrowLeft"@, "ArrowLeft"@))
    } else if n == 0xE013 {
        Some(("ArrowUp"@, "ArrowUp"@))
    } else if n == 0xE014 {
        Some(("ArrowRight"@, "ArrowRight"@))
    } else if n == 0xE015 {
        Some(("ArrowDown"@, "ArrowDown"@))
    } else if n == 0xE016 {
        Some(("Insert"@, "Insert"@))
    } else if n == 0xE017 {
        Some(("Delete"@, "Delete"@))
    } else if n == 0xE03D {
        Some(("MetaLeft"@, "MetaRight"@))
    } else if n == 0xE031 {
        Some(("F1"@, "F1"@))
    } else if n == 0xE032 {
        Some(("F2"@, "F2"@))
    } else if n == 0xE033 {
        Some(("F3"@, "F3"@))
    } else if n == 0xE034 {
        Some(("F4"@, "F4"@))
    } else if n == 0xE035 {
        Some(("F5"@, "F5"@))
    } else if n == 0xE036 {
        Some(("F6"@, "F6"@))
    } else if n == 0xE037 {
        Some(("F7"@, "F7"@))
    } else if n == 0xE038 {
        Some(("F8"@, "F8"@))
    } else if n == 0xE039 {
        Some(("F9"@, "F9"@))
    } else if n == 0xE03A {
        Some(("F10"@, "F10"@))
    } else if n == 0xE03B {
        Some(("F11"@, "F11"@))
    } else if n == 0xE03C {
        Some(("F12"@, "F12"@))
    } else {
        None
    }
}

/// A key that types nothing stands for one character, and that character stands for this key;
/// every key that the protocol has a character for is found. A key that types something stands
/// for what it types, if that is one character.
pub proof fn special_keys_are_those_of_the_protocol(code: Seq<char>, key: Seq<char>, n: u32)
    ensures
        special_key(code) matches Some(v) ==> v.len() == 1 && (keys_of_private(
            v[0] as u32,
        ) matches Some((a, b)) && (code == a || code == b)),
        keys_of_private(n) matches Some((a, b)) ==> special_key(a) is Some && special_key(b)
            is Some,
        special_key(code) is Some ==> key_value(code, key) == special_key(code),
        special_key(code) is None && key.len() == 1 ==> key_value(code, key) == Some(key),
        special_key(code) is None && key.len() != 1 ==> key_value(code, key) is None,
{
    reveal_strlit("\u{E003}");
    reveal_strlit("\u{E004}");
    reveal_strlit("\u{E007}");
    reveal_strlit("\u{E008}");
    reveal_strlit("\u{E009}");
    reveal_strlit("\u{E00A}");
    reveal_strlit("\u{E00C}");
    reveal_strlit("\u{E00E}");
    reveal_strlit("\u{E00F}");
    reveal_strlit("\u{E010}");
    reveal_strlit("\u{E011}");
    reveal_strlit("\u{E012}");
    reveal_strlit("\u{E013}");
    reveal_strlit("\u{E014}");
    reveal_strlit("\u{E015}");
    reveal_strlit("\u{E016}");
    reveal_strlit("\u{E017}");
    reveal_strlit("\u{E03D}");
    reveal_strlit("\u{E031}");
    reveal_strlit("\u{E032}");
    reveal_strlit("\u{E033}");
    reveal_strlit("\u{E034}");
    reveal_strlit("\u{E035}");
    reveal_strlit("\u{E036}");
    reveal_strlit("\u{E037}");
    reveal_strlit("\u{E038}");
    reveal_strlit("\u{E039}");
    reveal_strlit("\u{E03A}");
    reveal_strlit("\u{E03B}");
    reveal_strlit("\u{E03C}");
}

/// The modifiers of a stroke are the keys of that name, each exactly where it is held, and none
/// twice.
pub proof fn held_modifiers_are_their_keys(ctrl: bool, shift: bool, alt: bool, meta: bool)
    ensures
        ({
            let all = held(ctrl, shift, alt, meta);
            &&& all.contains(seq!['\u{E009}']) <==> ctrl
            &&& all.contains(seq!['\u{E008}']) <==> shift
            &&& all.contains(seq!['\u{E00A}']) <==> alt
            &&& all.contains(seq!['\u{E03D}']) <==> meta
            &&& all.no_duplicates()
            &&& forall|i: int|
                0 <= i < all.len() ==> (#[trigger] all[i]).len() == 1 && keys_of_private(
                    all[i][0] as u32,
                ) is Some
        }),
{
    reveal_strlit("\u{E009}");
    reveal_strlit("\u{E008}");
    reveal_strlit("\u{E00A}");
    reveal_strlit("\u{E03D}");
    assert("\u{E009}"@ =~= seq!['\u{E009}']);
    assert("\u{E008}"@ =~= seq!['\u{E008}']);
    assert("\u{E00A}"@ =~= seq!['\u{E00A}']);
    assert("\u{E03D}"@ =~= seq!['\u{E03D}']);
    let all = held(ctrl, shift, alt, meta);
    let c: int = if ctrl {
        1
    } else {
        0
    };
    let s: int = if shift {
        1
    } else {
        0
    };
    let a: int = if alt {
        1
    } else {
        0
    };
    if ctrl {
        assert(all[0] == "\u{E009}"@);
    }
    if shift {
        assert(all[c] == "\u{E008}"@);
    }
    if alt {
        assert(all[c + s] == "\u{E00A}"@);
    }
    if meta {
        assert(all[c + s + a] == "\u{E03D}"@);
    }
    assert(seq!['\u{E009}'][0] != seq!['\u{E008}'][0]);
    assert(seq!['\u{E009}'][0] != seq!['\u{E00A}'][0]);
    assert(seq!['\u{E009}'][0] != seq!['\u{E03D}'][0]);
    assert(seq!['\u{E008}'][0] != seq!['\u{E00A}'][0]);
    assert(seq!['\u{E008}'][0] != seq!['\u{E03D}'][0]);
    assert(seq!['\u{E00A}'][0] != seq!['\u{E03D}'][0]);
}

/// A stroke holds its modifiers while the key goes down and up: first the modifiers go down in
/// their order, then the key, and all go up in the opposite order.
pub proof fn strokes_hold_their_modifiers(modifiers: Seq<Seq<char>>, value: Seq<char>, i: int)
    requires
        0 <= i < modifiers.len(),
    ensures
        ({
            let all = stroke_steps(modifiers, value);
            let n = modifiers.len() as int;
            &&& all.len() == 2 * n + 2
            &&& all[i] == (true, modifiers[i])
            &&& all[n] == (true, value) && all[n + 1] == (false, value)
            &&& all[2 * n + 1 - i] == (false, modifiers[i])
        }),
{
}

/// Every key that a stroke presses is released by it.
pub proof fn strokes_release_what_they_press(modifiers: Seq<Seq<char>>, value: Seq<char>, i: int)
    requires
        0 <= i < stroke_steps(modifiers, value).len(),
        stroke_steps(modifiers, value)[i].0,
    ensures
        ({
            let all = stroke_steps(modifiers, value);
            let j = all.len() - 1 - i;
            i < j < all.len() && !all[j].0 && all[j].1 == all[i].1
        }),
{
}

/// An address is written so that host and port read back from it, in brackets where the host
/// holds colons itself.
pub proof fn addresses_read_back(e: LoopbackEndpoint<Seq<char>>)
    requires
        e.host == "127.0.0.1"@ || e.host == "localhost"@ || e.host == "::1"@,
    ensures
        host_and_port(e.address_text()) == Ok::<_, AdapterError<Seq<char>>>(
            (e.host, text::dec(e.port as nat)),
        ),
{
    let d = text::dec(e.port as nat);
    let s = e.address_text();
    text::decimal_numbers_read_back(e.port as nat, u16::MAX as nat);
    reveal_strlit("127.0.0.1");
    reveal_strlit("localhost");
    reveal_strlit("::1");
    reveal_strlit("[");
    reveal_strlit("]:");
    reveal_strlit(":");
    assert("::1"@.len() == 3 && "127.0.0.1"@.len() == 9 && "localhost"@.len() == 9);
    if e.host == "::1"@ {
        let rest = e.host + seq![']'] + (":"@ + d);
        assert(s =~= "["@ + rest);
        assert(s.subrange(0, 1) =~= "["@);
        assert(s.skip(1) =~= rest);
        assert(!e.host.contains(']')) by {
            if e.host.contains(']') {
                let j = choose|j: int| 0 <= j < e.host.len() && e.host[j] == ']';
                assert(0 <= j < 3);
            }
        }
        text::texts_are_parted_at_the_first(e.host, ']', ":"@ + d);
        let after = ":"@ + d;
        assert(after.subrange(0, 1) =~= ":"@);
        assert(after.skip(1) =~= d);
    } else {
        assert(s =~= e.host + seq![':'] + d);
        assert(s[0] == e.host[0]);
        assert(!text::stands_at(s, "["@, 0)) by {
            if text::stands_at(s, "["@, 0) {
                assert(s.subrange(0, 1)[0] == "["@[0]);
            }
        }
        let n = e.host.len() as int;
        assert forall|j: int| n < j < s.len() implies #[trigger] s[j] != ':' by {
            assert(s[j] == d[j - n - 1]);
            assert(text::is_digit(d[j - n - 1]));
        }
        lemma_last_colon(s, n, s.len() as int);
        assert(s.take(n) =~= e.host);
        assert(s.skip(n + 1) =~= d);
    }
}

/// A phone is found where exactly one stands behind a mask: its own identifier is then known;
/// otherwise the connection is not available.
pub proof fn one_phone_stands_behind_a_mask(devices: Seq<UsbDevice<Seq<char>>>, token: Seq<char>)
    ensures
        looked_up(devices, token) is Ok <==> usb_devices::raw_ids_behind(devices, token).len() == 1,
        looked_up(devices, token) matches Ok(id) ==> usb_devices::raw_ids_behind(devices, token)
            == seq![id],
        looked_up(devices, token) matches Err(e) ==> e is IosUsbUnavailable,
{
    let found = usb_devices::raw_ids_behind(devices, token);
    if found.len() == 1 {
        assert(found =~= seq![found[0]]);
    }
}

/// A server can be installed where everything for it ships with the application; a server that
/// was configured is spoken of before anything that is found.
pub proof fn configured_servers_are_spoken_of_first(
    p: WdaParts,
    q: WdaParts,
    configured: ConfiguredWda<Seq<char>>,
)
    ensures
        can_install(p) <==> p.artifact && p.installer && p.go_ios,
        !(configured is Absent) ==> capability_detail(p, configured) == capability_detail(
            q,
            configured,
        ),
        can_install(p) && can_install(q) ==> capability_detail(p, ConfiguredWda::Absent)
            == capability_detail(q, ConfiguredWda::Absent),
        configured matches ConfiguredWda::BadUrl(e) ==> capability_detail(p, configured)
            == e.message_text(),
{
}

/// A tool that ships with the application comes first, then the one that was named, then where
/// the platform keeps such tools, and last the search path, in its order.
pub proof fn shipped_tools_come_first(p: IosToolPlaces, name: Seq<char>, i: int)
    ensures
        ({
            let exe = integrations::executable_name(name, p.platform);
            let all = ios_tool_places(p, name);
            let k = p.path_dirs@.len() as int;
            &&& all.len() >= 4 + k
            &&& all[0] == integrations::below(
                p.platform,
                integrations::below(p.platform, p.resources@, "binaries"@),
                exe,
            )
            &&& p.configured is None ==> all == all.take(4) + platform_places(p, exe) + all.skip(
                all.len() - k,
            )
            &&& p.configured matches Some(c) ==> all[4] == (if p.configured_is_dir {
                integrations::below(p.platform, c@, exe)
            } else {
                c@
            })
            &&& 0 <= i < k ==> all[all.len() - k + i] == integrations::below(
                p.platform,
                p.path_dirs@[i]@,
                exe,
            )
        }),
        ({
            let exe = integrations::executable_name(name, p.platform);
            let all = runtime_tool_places(p, name);
            let k = p.path_dirs@.len() as int;
            &&& all.len() == 3 + k + (if p.configured is Some {
                1int
            } else {
                0int
            })
            &&& all[0] == integrations::below(
                p.platform,
                integrations::below(p.platform, p.resources@, "binaries"@),
                exe,
            )
            &&& 0 <= i < k ==> all[all.len() - k + i] == integrations::below(
                p.platform,
                p.path_dirs@[i]@,
                exe,
            )
        }),
{
    let exe = integrations::executable_name(name, p.platform);
    let all = ios_tool_places(p, name);
    let k = p.path_dirs@.len() as int;
    assert(text::texts(p.path_dirs@).len() == k);
    if p.configured is None {
        assert(all =~= all.take(4) + platform_places(p, exe) + all.skip(all.len() - k));
    }
    if 0 <= i < k {
        assert(text::texts(p.path_dirs@)[i] == p.path_dirs@[i]@);
    }
}

/// A text is typed in its session, piece by piece, in order.
pub proof fn texts_are_typed_in_their_session(session: Seq<char>, s: Seq<char>, i: int)
    requires
        0 <= i < wda_requests::batches_from(s, 0).len(),
    ensures
        typing_requests(session, s).len() == wda_requests::batches_from(s, 0).len(),
        typing_requests(session, s)[i].path == "/session/"@ + session + "/wda/keys"@,
        typing_requests(session, s)[i].body == Some(
            json::text_of_json(
                wda_requests::typing_body(wda_requests::batches_from(s, 0)[i]),
            ),
        ),
{
}

/// A pointer moves, and a button goes down or up, at the place that its own place in the picture
/// maps to.
pub proof fn pointers_act_where_their_place_maps_to(
    source: ScreenSize,
    target: ScreenSize,
    x: u32,
    y: u32,
    pressed: bool,
    a: u32,
    b: u32,
)
    requires
        mapped_point(source, target, x, y) == Some((a, b)),
    ensures
        moved_body(source, target, x, y) == wda_requests::move_body(a, b),
        pressed_body(source, target, x, y, pressed) == wda_requests::button_body(a, b, pressed),
{
}

/// The control of the phone that a connection has led to.
pub open spec fn control_of(stage: WdaStage<Seq<char>>) -> Option<IosUsbControl<Seq<char>>> {
    match stage {
        WdaStage::Connected { session, owned, size, tunnel } => Some(
            IosUsbControl {
                session_id: session,
                target_size: size,
                pointer_active: false,
                owns_session: owned,
            },
        ),
        _ => None,
    }
}

/// A phone is controlled once its connection stands: in the session and the size that the
/// connection found, with nothing pressed; before that there is no control.
pub proof fn control_begins_where_the_connection_ended(stage: WdaStage<Seq<char>>)
    ensures
        stage matches WdaStage::Connected { session, owned, size, tunnel } ==> (control_of(stage)
            matches Some(c) && c.session_id == session && c.target_size == size && c.owns_session
            == owned && !c.pointer_active),
        !(stage is Connected) ==> control_of(stage) is None,
{
}

} // verus!
