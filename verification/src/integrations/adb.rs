//! The Android debug bridge: where its tools are looked for, what it prints, and the input
//! commands that it is given.
//!
//! The arguments of every call are built here, as a list, from a fixed set of commands; none
//! of them goes through a shell. A serial number is shown only masked.
use vstd::prelude::*;

use crate::integrations;
use crate::integrations::usb_devices;
use crate::integrations::{executable, path_below, AdapterError, HostPlatform, ToolRun};
use crate::seqs;
use crate::text;

verus! {

// ---------------------------------------------------------------------------
// Locating a tool
// ---------------------------------------------------------------------------

/// What the environment says about where tools may be.
pub struct ToolPlaces {
    pub platform: HostPlatform,
    /// The resource directory of the application.
    pub resources: String,
    /// The value of the variable that names the tool.
    pub configured: Option<String>,
    pub android_home: Option<String>,
    pub android_sdk_root: Option<String>,
    pub home: Option<String>,
    pub local_app_data: Option<String>,
    pub user_profile: Option<String>,
    /// The directories of the search path.
    pub path_dirs: Vec<String>,
}

/// A place where a tool may be; `file_only` where a directory of that name does not count.
pub struct ToolCandidate<T = String> {
    pub path: T,
    pub file_only: bool,
}

impl View for ToolCandidate<String> {
    type V = ToolCandidate<Seq<char>>;

    open spec fn view(&self) -> ToolCandidate<Seq<char>> {
        ToolCandidate { path: self.path@, file_only: self.file_only }
    }
}

/// The contents of a list of places.
pub open spec fn places(v: Seq<ToolCandidate>) -> Seq<ToolCandidate<Seq<char>>> {
    Seq::new(v.len(), |i: int| v[i]@)
}

/// The tool `exe` directly in `dir`.
pub open spec fn tool_in(platform: HostPlatform, dir: Seq<char>, exe: Seq<char>) -> ToolCandidate<
    Seq<char>,
> {
    ToolCandidate { path: integrations::below(platform, dir, exe), file_only: false }
}

/// The tool `exe` in each of the directories.
pub open spec fn tool_in_each(platform: HostPlatform, dirs: Seq<Seq<char>>, exe: Seq<char>) -> Seq<
    ToolCandidate<Seq<char>>,
> {
    Seq::new(dirs.len(), |i: int| tool_in(platform, dirs[i], exe))
}

/// The directory `rest` below an optional directory.
pub open spec fn opt_below(
    platform: HostPlatform,
    dir: Option<Seq<char>>,
    rest: Seq<char>,
) -> Seq<Seq<char>> {
    match dir {
        Some(d) => seq![integrations::below(platform, d, rest)],
        None => Seq::empty(),
    }
}

/// A directory that is configured; a blank one counts as none.
pub open spec fn not_blank(dir: Option<Seq<char>>) -> Option<Seq<char>> {
    match dir {
        Some(d) => if text::trimmed(d).len() == 0 {
            None
        } else {
            Some(d)
        },
        None => None,
    }
}

/// The directories in which such tools are commonly installed.
pub open spec fn common_dirs(p: ToolPlaces) -> Seq<Seq<char>> {
    let home = text::opt_text(p.home);
    let profile = text::opt_text(p.user_profile);
    let android_home = not_blank(text::opt_text(p.android_home));
    let sdk_root = not_blank(text::opt_text(p.android_sdk_root));
    let local = text::opt_text(p.local_app_data);
    opt_below(p.platform, android_home, "platform-tools"@) + opt_below(
        p.platform,
        sdk_root,
        "platform-tools"@,
    ) + (if p.platform is MacOs {
        opt_below(p.platform, home, "Library/Android/sdk/platform-tools"@)
    } else {
        Seq::empty()
    }) + opt_below(p.platform, home, ".local/bin"@) + opt_below(p.platform, home, "bin"@) + (
    if p.platform is Windows {
        opt_below(p.platform, local, "Android/Sdk/platform-tools"@) + opt_below(
            p.platform,
            profile,
            "AppData/Local/Android/Sdk/platform-tools"@,
        ) + opt_below(p.platform, profile, "Android/Sdk/platform-tools"@) + seq![
            "C:\\Android\\platform-tools"@,
        ]
    } else {
        Seq::empty()
    }) + seq!["/opt/homebrew/bin"@, "/usr/local/bin"@, "/usr/bin"@]
}

/// The places of a tool that a variable names: the file itself, or the tool in that directory.
pub open spec fn configured_places(
    platform: HostPlatform,
    configured: Option<Seq<char>>,
    exe: Seq<char>,
) -> Seq<ToolCandidate<Seq<char>>> {
    match configured {
        Some(value) => {
            let p = text::trimmed(value);
            if p.len() == 0 {
                Seq::empty()
            } else {
                seq![ToolCandidate { path: p, file_only: true }, tool_in(platform, p, exe)]
            }
        },
        None => Seq::empty(),
    }
}

/// All places of a tool in the order in which they are tried: shipped with the application,
/// configured, commonly installed, on the search path.
pub open spec fn tool_places(p: ToolPlaces, name: Seq<char>) -> Seq<ToolCandidate<Seq<char>>> {
    let exe = integrations::executable_name(name, p.platform);
    seq![
        tool_in(p.platform, integrations::below(p.platform, p.resources@, "binaries"@), exe),
        tool_in(p.platform, p.resources@, exe),
        tool_in(p.platform, integrations::below(p.platform, p.resources@, "../MacOS"@), exe),
    ] + configured_places(p.platform, text::opt_text(p.configured), exe) + tool_in_each(
        p.platform,
        common_dirs(p),
        exe,
    ) + tool_in_each(p.platform, text::texts(p.path_dirs@), exe)
}

/// Adds the directory `rest` below an optional directory.
pub fn push_below(
    platform: HostPlatform,
    dirs: &mut Vec<String>,
    dir: &Option<String>,
    rest: &str,
)
    ensures
        text::texts(final(dirs)@) == text::texts(old(dirs)@) + opt_below(
            platform,
            text::opt_text(*dir),
            rest@,
        ),
{
    let ghost before = dirs@;
    match dir {
        Some(d) => {
            let p = path_below(platform, d.as_str(), rest);
            dirs.push(p);
            assert(text::texts(dirs@) =~= text::texts(before) + seq![p@]);
        },
        None => {
            assert(text::texts(dirs@) =~= text::texts(before) + Seq::<Seq<char>>::empty());
        },
    }
}

fn push_dir(dirs: &mut Vec<String>, dir: &str)
    ensures
        text::texts(final(dirs)@) == text::texts(old(dirs)@) + seq![dir@],
{
    let ghost before = dirs@;
    dirs.push(text::own(dir));
    assert(text::texts(dirs@) =~= text::texts(before) + seq![dir@]);
}

fn without_blank(dir: &Option<String>) -> (r: Option<String>)
    ensures
        text::opt_text(r) == not_blank(text::opt_text(*dir)),
{
    match dir {
        Some(d) => if text::trim(d.as_str()).as_str().is_empty() {
            None
        } else {
            Some(text::own(d.as_str()))
        },
        None => None,
    }
}

/// The directories in which such tools are commonly installed.
pub fn common_search_dirs(p: &ToolPlaces) -> (r: Vec<String>)
    ensures
        text::texts(r@) == common_dirs(*p),
{
    let mut dirs: Vec<String> = Vec::new();
    assert(text::texts(dirs@) =~= Seq::<Seq<char>>::empty());
    let is_mac = matches!(p.platform, HostPlatform::MacOs);
    let is_windows = matches!(p.platform, HostPlatform::Windows);
    push_below(p.platform, &mut dirs, &without_blank(&p.android_home), "platform-tools");
    push_below(p.platform, &mut dirs, &without_blank(&p.android_sdk_root), "platform-tools");
    if is_mac {
        push_below(p.platform, &mut dirs, &p.home, "Library/Android/sdk/platform-tools");
    }
    push_below(p.platform, &mut dirs, &p.home, ".local/bin");
    push_below(p.platform, &mut dirs, &p.home, "bin");
    if is_windows {
        push_below(p.platform, &mut dirs, &p.local_app_data, "Android/Sdk/platform-tools");
        push_below(p.platform, &mut dirs, &p.user_profile, "AppData/Local/Android/Sdk/platform-tools");
        push_below(p.platform, &mut dirs, &p.user_profile, "Android/Sdk/platform-tools");
        push_dir(&mut dirs, "C:\\Android\\platform-tools");
    }
    push_dir(&mut dirs, "/opt/homebrew/bin");
    push_dir(&mut dirs, "/usr/local/bin");
    push_dir(&mut dirs, "/usr/bin");
    assert(text::texts(dirs@) =~= common_dirs(*p));
    dirs
}

fn push_each(
    platform: HostPlatform,
    out: &mut Vec<ToolCandidate>,
    dirs: &Vec<String>,
    exe: &str,
)
    ensures
        places(final(out)@) == places(old(out)@) + tool_in_each(platform, text::texts(dirs@), exe@),
{
    let ghost start = places(out@);
    let ghost all = tool_in_each(platform, text::texts(dirs@), exe@);
    let mut i: usize = 0;
    while i < dirs.len()
        invariant
            i <= dirs@.len(),
            all == tool_in_each(platform, text::texts(dirs@), exe@),
            places(out@) =~= start + all.take(i as int),
        decreases dirs@.len() - i,
    {
        let c = ToolCandidate {
            path: path_below(platform, dirs[i].as_str(), exe),
            file_only: false,
        };
        let ghost before = out@;
        out.push(c);
        assert(places(out@) =~= places(before).push(c@));
        assert(c@ == all[i as int]);
        i = i + 1;
    }
    assert(all.take(i as int) =~= all);
}

/// All places of a tool in the order in which they are tried.
pub fn tool_candidates(p: &ToolPlaces, name: &str) -> (r: Vec<ToolCandidate>)
    ensures
        places(r@) == tool_places(*p, name@),
{
    let exe = executable(name, p.platform);
    let mut dirs: Vec<String> = Vec::new();
    dirs.push(path_below(p.platform, p.resources.as_str(), "binaries"));
    dirs.push(text::own(p.resources.as_str()));
    dirs.push(path_below(p.platform, p.resources.as_str(), "../MacOS"));
    let mut out: Vec<ToolCandidate> = Vec::new();
    push_each(p.platform, &mut out, &dirs, exe.as_str());
    assert(places(out@) =~= seq![
        tool_in(p.platform, integrations::below(p.platform, p.resources@, "binaries"@), exe@),
        tool_in(p.platform, p.resources@, exe@),
        tool_in(p.platform, integrations::below(p.platform, p.resources@, "../MacOS"@), exe@),
    ]);
    match &p.configured {
        Some(value) => {
            let t = text::trim(value.as_str());
            if !t.as_str().is_empty() {
                let inside = path_below(p.platform, t.as_str(), exe.as_str());
                let ghost before = out@;
                out.push(ToolCandidate { path: t, file_only: true });
                out.push(ToolCandidate { path: inside, file_only: false });
                assert(places(out@) =~= places(before) + configured_places(
                    p.platform,
                    text::opt_text(p.configured),
                    exe@,
                ));
            } else {
                assert(places(out@) =~= places(out@) + configured_places(
                    p.platform,
                    text::opt_text(p.configured),
                    exe@,
                ));
            }
        },
        None => {
            assert(places(out@) =~= places(out@) + configured_places(
                    p.platform,
                text::opt_text(p.configured),
                exe@,
            ));
        },
    }
    push_each(p.platform, &mut out, &common_search_dirs(p), exe.as_str());
    push_each(p.platform, &mut out, &p.path_dirs, exe.as_str());
    out
}

/// The path that the shell printed for a command: all of it, or its first line on Windows.
pub open spec fn shell_path(platform: HostPlatform, run: ToolRun<Seq<char>>) -> Option<Seq<char>> {
    let lines = text::lines_of(run.stdout);
    let p = if platform is Windows {
        if lines.len() == 0 {
            Seq::empty()
        } else {
            text::trimmed(lines[0])
        }
    } else {
        text::trimmed(run.stdout)
    };
    if run.success && p.len() > 0 {
        Some(p)
    } else {
        None
    }
}

/// The path that the shell printed for a command.
pub fn search_shell(platform: HostPlatform, run: &ToolRun) -> (r: Option<String>)
    ensures
        text::opt_text(r) == shell_path(platform, run@),
{
    if !run.success {
        return None;
    }
    let p = match platform {
        HostPlatform::Windows => {
            let lines = text::lines(run.stdout.as_str());
            if lines.len() == 0 {
                return None;
            }
            assert(text::texts(lines@)[0] == lines@[0]@);
            text::trim(lines[0].as_str())
        },
        _ => text::trim(run.stdout.as_str()),
    };
    if p.as_str().is_empty() {
        None
    } else {
        Some(p)
    }
}

/// Where a tool is: the first candidate that is present, else what the shell found.
pub open spec fn tool_at(
    candidates: Seq<ToolCandidate>,
    present: Seq<bool>,
    shell: Option<String>,
) -> Option<Seq<char>> {
    let i = seqs::first_from(present, |b: bool| b, 0);
    if 0 <= i < present.len() {
        Some(candidates[i].path@)
    } else {
        text::opt_text(shell)
    }
}

/// Chooses where a tool is: the first candidate that is present, else what the shell found.
/// `present` says of each candidate whether it is there; `shell` is a path that exists.
pub fn resolve_tool(
    candidates: &Vec<ToolCandidate>,
    present: &Vec<bool>,
    shell: Option<String>,
    name: &str,
    env_var: &str,
) -> (r: Result<String, String>)
    requires
        present@.len() == candidates@.len(),
    ensures
        match tool_at(candidates@, present@, shell) {
            Some(path) => r matches Ok(p) && p@ == path,
            None => r matches Err(e) && e@ == not_found_text(name@, env_var@),
        },
{
    let ghost f = |b: bool| b;
    let mut i: usize = 0;
    while i < present.len()
        invariant
            i <= present@.len(),
            present@.len() == candidates@.len(),
            f == (|b: bool| b),
            forall|j: int| 0 <= j < i ==> !f(#[trigger] present@[j]),
        decreases present@.len() - i,
    {
        if present[i] {
            proof {
                seqs::lemma_first_from_is(present@, f, 0, i as int);
            }
            return Ok(text::own(candidates[i].path.as_str()));
        }
        i = i + 1;
    }
    proof {
        seqs::lemma_first_from_is(present@, f, 0, i as int);
    }
    match shell {
        Some(s) => Ok(s),
        None => Err(tool_not_found(name, env_var)),
    }
}

/// What is reported of a tool that is nowhere.
pub open spec fn not_found_text(name: Seq<char>, env_var: Seq<char>) -> Seq<char> {
    "未找到 "@ + name + "（已探测：binaries/、"@ + env_var + "、常见安装目录、PATH、command -v "@
        + name
        + "）。请把审计过的构建物放入应用 binaries/（发布随包分发），或安装 Android SDK Platform-Tools 后设置 "@
        + env_var
}

/// Chooses where a tool is that may come with the program; it is looked for like any other.
pub fn resolve_tool_bundled(
    candidates: &Vec<ToolCandidate>,
    present: &Vec<bool>,
    shell: Option<String>,
    name: &str,
    env_var: &str,
) -> (r: Result<String, String>)
    requires
        present@.len() == candidates@.len(),
    ensures
        match tool_at(candidates@, present@, shell) {
            Some(path) => r matches Ok(p) && p@ == path,
            None => r matches Err(e) && e@ == not_found_text(name@, env_var@),
        },
{
    resolve_tool(candidates, present, shell, name, env_var)
}

fn tool_not_found(name: &str, env_var: &str) -> (r: String)
    ensures
        r@ == not_found_text(name@, env_var@),
{
    let mut s = text::cat5(
        "未找到 ",
        name,
        "（已探测：binaries/、",
        env_var,
        "、常见安装目录、PATH、command -v ",
    );
    s.append(name);
    s.append(
        "）。请把审计过的构建物放入应用 binaries/（发布随包分发），或安装 Android SDK Platform-Tools 后设置 ",
    );
    s.append(env_var);
    s
}

/// A tool is the first of its places that is there; what the shell found counts only where none
/// is, and a tool is missing only where there is neither.
pub proof fn tools_are_found_in_order(
    candidates: Seq<ToolCandidate>,
    present: Seq<bool>,
    shell: Option<String>,
    k: int,
)
    requires
        present.len() == candidates.len(),
    ensures
        0 <= k < present.len() && present[k] && (forall|j: int|
            0 <= j < k ==> !#[trigger] present[j]) ==> tool_at(candidates, present, shell) == Some(
            candidates[k].path@,
        ),
        (forall|j: int| 0 <= j < present.len() ==> !#[trigger] present[j]) ==> tool_at(
            candidates,
            present,
            shell,
        ) == text::opt_text(shell),
        tool_at(candidates, present, shell) is None ==> shell is None && (forall|j: int|
            0 <= j < present.len() ==> !#[trigger] present[j]),
{
    let f = |b: bool| b;
    let at = seqs::first_from(present, f, 0);
    seqs::lemma_first_from(present, f, 0);
    assert forall|j: int| 0 <= j < at implies !#[trigger] present[j] by {
        assert(!f(present[j]));
    }
    if at < present.len() {
        assert(f(present[at]));
    }
    if 0 <= k < present.len() && present[k] && (forall|j: int|
        0 <= j < k ==> !#[trigger] present[j]) {
        assert forall|j: int| 0 <= j < k implies !f(#[trigger] present[j]) by {}
        seqs::lemma_first_from_is(present, f, 0, k);
    }
}

/// A tool that ships with the application is chosen before any other.
pub proof fn shipped_tool_comes_first(p: ToolPlaces, name: Seq<char>)
    ensures
        tool_places(p, name).len() >= 3,
        tool_places(p, name)[0].path == integrations::below(
            p.platform,
            integrations::below(p.platform, p.resources@, "binaries"@),
            integrations::executable_name(name, p.platform),
        ),
{
}

// ---------------------------------------------------------------------------
// Devices
// ---------------------------------------------------------------------------

/// A serial number with everything masked but its first two and last four bytes; a short one
/// is masked whole. A character that lies only in part in those bytes is masked too.
pub open spec fn masked_serial(serial: Seq<char>) -> Seq<char> {
    if text::byte_length(serial) <= 4 {
        "****"@
    } else {
        text::first_bytes(serial, 2) + "****"@ + text::last_bytes(serial, 4)
    }
}

/// Masks a serial number but for its first two and last four bytes.
pub fn mask_serial(serial: &str) -> (r: String)
    ensures
        r@ == masked_serial(serial@),
{
    if text::byte_len(serial) <= 4 {
        return text::own("****");
    }
    text::cat3(
        text::take_first_bytes(serial, 2).as_str(),
        "****",
        text::take_last_bytes(serial, 4).as_str(),
    )
}

/// A row of `adb devices`, as it is shown.
#[derive(Debug, PartialEq, Eq)]
pub struct AdbDevice<T = String> {
    pub serial_masked: T,
    /// `device`, `unauthorized`, `offline` and so on.
    pub status: T,
}

impl View for AdbDevice<String> {
    type V = AdbDevice<Seq<char>>;

    open spec fn view(&self) -> AdbDevice<Seq<char>> {
        AdbDevice { serial_masked: self.serial_masked@, status: self.status@ }
    }
}

impl Clone for AdbDevice<String> {
    fn clone(&self) -> (r: Self)
        ensures
            r@ == self@,
    {
        AdbDevice {
            serial_masked: text::own(self.serial_masked.as_str()),
            status: text::own(self.status.as_str()),
        }
    }
}

/// The serial number and the status on a line of `adb devices`.
pub open spec fn status_row(line: Seq<char>) -> Option<(Seq<char>, Seq<char>)> {
    let t = text::trimmed(line);
    let w = text::words_of(t);
    if t.len() == 0 || text::stands_at(t, "List of devices"@, 0) || w.len() == 0 {
        None
    } else {
        Some((
            w[0],
            if w.len() > 1 {
                w[1]
            } else {
                "unknown"@
            },
        ))
    }
}

/// The rows of the table that `adb devices` prints.
pub open spec fn status_rows(output: Seq<char>) -> Seq<(Seq<char>, Seq<char>)> {
    seqs::collect(usb_devices::table_lines(output), |l: Seq<char>| status_row(l))
}

/// Reads the table that `adb devices` prints into pairs of serial number and status.
pub fn parse_adb_devices_raw(output: &str) -> (r: Vec<(String, String)>)
    ensures
        usb_devices::pairs(r@) == status_rows(output@),
{
    let lines = usb_devices::lines_below_heading(output);
    let ghost f = |l: Seq<char>| status_row(l);
    let ghost all = usb_devices::table_lines(output@);
    let mut out: Vec<(String, String)> = Vec::new();
    let mut i: usize = 0;
    proof {
        seqs::lemma_collect_ends(all, f);
        assert(usb_devices::pairs(out@) =~= Seq::<(Seq<char>, Seq<char>)>::empty());
    }
    while i < lines.len()
        invariant
            i <= lines@.len(),
            text::texts(lines@) == all,
            f == (|l: Seq<char>| status_row(l)),
            usb_devices::pairs(out@) == seqs::collect(all.take(i as int), f),
        decreases lines@.len() - i,
    {
        proof {
            seqs::lemma_collect_step(all, f, i as int);
            assert(all[i as int] == lines@[i as int]@);
        }
        let t = text::trim(lines[i].as_str());
        let ghost before = out@;
        if !t.as_str().is_empty() && !text::starts_with(t.as_str(), "List of devices") {
            let w = text::words(t.as_str());
            if w.len() > 0 {
                let serial = text::own(w[0].as_str());
                assert(text::texts(w@)[0] == w@[0]@);
                let status = if w.len() > 1 {
                    assert(text::texts(w@)[1] == w@[1]@);
                    text::own(w[1].as_str())
                } else {
                    text::own("unknown")
                };
                out.push((serial, status));
                assert(usb_devices::pairs(out@) =~= usb_devices::pairs(before).push(
                    (serial@, status@),
                ));
            }
        }
        i = i + 1;
    }
    proof {
        seqs::lemma_collect_ends(all, f);
    }
    out
}

/// The rows as they are shown.
pub open spec fn shown_rows(output: Seq<char>) -> Seq<AdbDevice<Seq<char>>> {
    let rows = status_rows(output);
    Seq::new(
        rows.len(),
        |i: int| AdbDevice { serial_masked: masked_serial(rows[i].0), status: rows[i].1 },
    )
}

/// The contents of a list of shown rows.
pub open spec fn adb_views(v: Seq<AdbDevice>) -> Seq<AdbDevice<Seq<char>>> {
    Seq::new(v.len(), |i: int| v[i]@)
}

/// Reads the table that `adb devices` prints, with masked serial numbers.
pub fn parse_adb_devices(output: &str) -> (r: Vec<AdbDevice>)
    ensures
        adb_views(r@) == shown_rows(output@),
{
    let rows = parse_adb_devices_raw(output);
    let ghost all = status_rows(output@);
    let mut out: Vec<AdbDevice> = Vec::new();
    let mut i: usize = 0;
    while i < rows.len()
        invariant
            i <= rows@.len(),
            usb_devices::pairs(rows@) == all,
            all == status_rows(output@),
            adb_views(out@) =~= shown_rows(output@).take(i as int),
        decreases rows@.len() - i,
    {
        assert(all[i as int] == (rows@[i as int].0@, rows@[i as int].1@));
        let d = AdbDevice {
            serial_masked: mask_serial(rows[i].0.as_str()),
            status: text::own(rows[i].1.as_str()),
        };
        let ghost before = out@;
        out.push(d);
        assert(adb_views(out@) =~= adb_views(before).push(d@));
        i = i + 1;
    }
    out
}

/// What a run of `adb devices` that could not be started is reported with.
pub open spec fn adb_not_run(why: Seq<char>) -> AdapterError<Seq<char>> {
    AdapterError::Failed("执行 adb devices 失败: "@ + why)
}

fn report_adb_not_run(why: &str) -> (r: AdapterError)
    ensures
        r@ == adb_not_run(why@),
{
    AdapterError::Failed(text::cat2("执行 adb devices 失败: ", why))
}

/// The rows of a run of `adb devices`, as they are shown; `run` is what it printed, or why it
/// could not be started.
pub fn list_devices(run: Result<String, String>) -> (r: Result<Vec<AdbDevice>, AdapterError>)
    ensures
        match (run, r) {
            (Ok(out), Ok(v)) => adb_views(v@) == shown_rows(out@),
            (Err(why), Err(e)) => e@ == adb_not_run(why@),
            _ => false,
        },
{
    match run {
        Ok(out) => Ok(parse_adb_devices(out.as_str())),
        Err(why) => Err(report_adb_not_run(why.as_str())),
    }
}

/// The serial numbers of the rows whose device is authorized.
pub open spec fn authorized(rows: Seq<(Seq<char>, Seq<char>)>) -> Seq<Seq<char>> {
    seqs::collect(
        rows,
        |r: (Seq<char>, Seq<char>)|
            if r.1 == "device"@ {
                Some(r.0)
            } else {
                None
            },
    )
}

fn authorized_serials(output: &str) -> (r: Vec<String>)
    ensures
        text::texts(r@) == authorized(status_rows(output@)),
{
    let rows = parse_adb_devices_raw(output);
    let ghost all = status_rows(output@);
    let ghost f = |r: (Seq<char>, Seq<char>)|
        if r.1 == "device"@ {
            Some(r.0)
        } else {
            None
        };
    let mut out: Vec<String> = Vec::new();
    let mut i: usize = 0;
    proof {
        seqs::lemma_collect_ends(all, f);
        assert(text::texts(out@) =~= Seq::<Seq<char>>::empty());
    }
    while i < rows.len()
        invariant
            i <= rows@.len(),
            usb_devices::pairs(rows@) == all,
            f == (|r: (Seq<char>, Seq<char>)|
                if r.1 == "device"@ {
                    Some(r.0)
                } else {
                    None
                }),
            text::texts(out@) == seqs::collect(all.take(i as int), f),
        decreases rows@.len() - i,
    {
        proof {
            seqs::lemma_collect_step(all, f, i as int);
            assert(all[i as int] == (rows@[i as int].0@, rows@[i as int].1@));
        }
        let ghost before = out@;
        if text::same(rows[i].1.as_str(), "device") {
            let serial = text::own(rows[i].0.as_str());
            out.push(serial);
            assert(text::texts(out@) =~= text::texts(before).push(serial@));
        }
        i = i + 1;
    }
    proof {
        seqs::lemma_collect_ends(all, f);
    }
    out
}

/// The serial number of the first authorized device of a run of `adb devices`.
pub fn first_authorized_serial(run: Result<String, String>) -> (r: Result<
    Option<String>,
    AdapterError,
>)
    ensures
        match (run, r) {
            (Ok(out), Ok(s)) => {
                let all = authorized(status_rows(out@));
                text::opt_text(s) == (if all.len() == 0 {
                    None
                } else {
                    Some(all[0])
                })
            },
            (Err(why), Err(e)) => e@ == adb_not_run(why@),
            _ => false,
        },
{
    match run {
        Ok(out) => {
            let all = authorized_serials(out.as_str());
            assert(text::texts(all@).len() == all@.len());
            if all.len() == 0 {
                Ok(None)
            } else {
                assert(text::texts(all@)[0] == all@[0]@);
                Ok(Some(text::own(all[0].as_str())))
            }
        },
        Err(why) => Err(report_adb_not_run(why.as_str())),
    }
}

/// The authorized serial numbers that a session identifier stands for: those that are, or are
/// shown as, what follows its last colon.
pub open spec fn serials_for(rows: Seq<(Seq<char>, Seq<char>)>, session_id: Seq<char>) -> Seq<
    Seq<char>,
> {
    let wanted = text::behind_last(session_id, ':');
    seqs::collect(
        authorized(rows),
        |s: Seq<char>|
            if s == wanted || usb_devices::masked(s) == wanted {
                Some(s)
            } else {
                None
            },
    )
}

/// The serial number that a session identifier stands for. Where several devices share its
/// masked form none is chosen.
pub fn serial_for_session_id(run: Result<String, String>, session_id: &str) -> (r: Result<
    Option<String>,
    AdapterError,
>)
    ensures
        match run {
            Ok(out) => {
                let found = serials_for(status_rows(out@), session_id@);
                match r {
                    Ok(s) => found.len() <= 1 && text::opt_text(s) == (if found.len() == 0 {
                        None
                    } else {
                        Some(found[0])
                    }),
                    Err(e) => found.len() > 1 && e@ == AdapterError::Failed(
                        "多个 Android 设备的脱敏标识相同，无法安全选择目标设备"@,
                    ),
                }
            },
            Err(why) => r matches Err(e) && e@ == adb_not_run(why@),
        },
{
    let out = match run {
        Ok(out) => out,
        Err(why) => {
            return Err(report_adb_not_run(why.as_str()));
        },
    };
    let wanted = text::after_last(session_id, ':');
    let serials = authorized_serials(out.as_str());
    let ghost all = authorized(status_rows(out@));
    let ghost f = |s: Seq<char>|
        if s == wanted@ || usb_devices::masked(s) == wanted@ {
            Some(s)
        } else {
            None
        };
    let mut found: Vec<String> = Vec::new();
    let mut i: usize = 0;
    proof {
        seqs::lemma_collect_ends(all, f);
        assert(text::texts(found@) =~= Seq::<Seq<char>>::empty());
    }
    while i < serials.len()
        invariant
            i <= serials@.len(),
            text::texts(serials@) == all,
            f == (|s: Seq<char>|
                if s == wanted@ || usb_devices::masked(s) == wanted@ {
                    Some(s)
                } else {
                    None
                }),
            text::texts(found@) == seqs::collect(all.take(i as int), f),
        decreases serials@.len() - i,
    {
        proof {
            seqs::lemma_collect_step(all, f, i as int);
            assert(all[i as int] == serials@[i as int]@);
        }
        let ghost before = found@;
        let s = serials[i].as_str();
        if text::same(s, wanted.as_str()) || text::same(
            usb_devices::mask_id(s).as_str(),
            wanted.as_str(),
        ) {
            let serial = text::own(s);
            found.push(serial);
            assert(text::texts(found@) =~= text::texts(before).push(serial@));
        }
        i = i + 1;
    }
    proof {
        seqs::lemma_collect_ends(all, f);
        assert(f =~= (|s: Seq<char>|
            if s == text::behind_last(session_id@, ':') || usb_devices::masked(s)
                == text::behind_last(session_id@, ':') {
                Some(s)
            } else {
                None
            }));
        assert(text::texts(found@) == serials_for(status_rows(out@), session_id@));
        assert(text::texts(found@).len() == found@.len());
    }
    if found.len() == 0 {
        Ok(None)
    } else if found.len() == 1 {
        assert(text::texts(found@)[0] == found@[0]@);
        Ok(Some(text::own(found[0].as_str())))
    } else {
        Err(
            AdapterError::Failed(
                text::own("多个 Android 设备的脱敏标识相同，无法安全选择目标设备"),
            ),
        )
    }
}

/// The numbers that fit in 32 bits among the runs of digits of a line.
pub open spec fn numbers_in(line: Seq<char>) -> Seq<nat> {
    seqs::collect(
        text::split_by(line, |c: char| !text::is_digit(c)),
        |s: Seq<char>| text::parsed(s, u32::MAX as nat),
    )
}

/// The screen size in the output of `wm size`: the first two numbers of the first line that
/// speaks of a size, if both are at least 320.
pub open spec fn wm_size(output: Seq<char>) -> Option<(nat, nat)> {
    let lines = text::lines_of(output);
    let i = seqs::first_from(lines, |l: Seq<char>| text::occurs(l, "size"@), 0);
    if 0 <= i < lines.len() {
        let n = numbers_in(lines[i]);
        if n.len() >= 2 && n[0] >= 320 && n[1] >= 320 {
            Some((n[0], n[1]))
        } else {
            None
        }
    } else {
        None
    }
}

fn numbers_of(line: &str) -> (r: Vec<u32>)
    ensures
        Seq::new(r@.len(), |i: int| r@[i] as nat) == numbers_in(line@),
{
    let parts = text::split_at_non_digits(line);
    let ghost all = text::split_by(line@, |c: char| !text::is_digit(c));
    let ghost f = |s: Seq<char>| text::parsed(s, u32::MAX as nat);
    let mut out: Vec<u32> = Vec::new();
    let mut i: usize = 0;
    proof {
        seqs::lemma_collect_ends(all, f);
    }
    while i < parts.len()
        invariant
            i <= parts@.len(),
            text::texts(parts@) == all,
            f == (|s: Seq<char>| text::parsed(s, u32::MAX as nat)),
            Seq::new(out@.len(), |j: int| out@[j] as nat) =~= seqs::collect(
                all.take(i as int),
                f,
            ),
        decreases parts@.len() - i,
    {
        proof {
            seqs::lemma_collect_step(all, f, i as int);
            assert(all[i as int] == parts@[i as int]@);
        }
        match text::parse_number(parts[i].as_str(), u32::MAX as u64) {
            Some(n) => {
                out.push(n as u32);
            },
            None => {},
        }
        i = i + 1;
    }
    proof {
        seqs::lemma_collect_ends(all, f);
    }
    out
}

/// The contents of an optional size.
pub open spec fn size_view(v: Option<(u32, u32)>) -> Option<(nat, nat)> {
    match v {
        Some((w, h)) => Some((w as nat, h as nat)),
        None => None,
    }
}

/// Reads the screen size out of what `wm size` prints.
pub fn parse_wm_size(output: &str) -> (r: Option<(u32, u32)>)
    ensures
        size_view(r) == wm_size(output@),
{
    let lines = text::lines(output);
    let ghost all = text::lines_of(output@);
    let ghost f = |l: Seq<char>| text::occurs(l, "size"@);
    let mut i: usize = 0;
    while i < lines.len()
        invariant
            i <= lines@.len(),
            text::texts(lines@) == all,
            all == text::lines_of(output@),
            f == (|l: Seq<char>| text::occurs(l, "size"@)),
            forall|j: int| 0 <= j < i ==> !f(#[trigger] all[j]),
        decreases lines@.len() - i,
    {
        assert(all[i as int] == lines@[i as int]@);
        if text::contains(lines[i].as_str(), "size") {
            proof {
                seqs::lemma_first_from_is(all, f, 0, i as int);
            }
            let n = numbers_of(lines[i].as_str());
            let ghost nums = numbers_in(all[i as int]);
            assert(nums.len() == n@.len());
            if n.len() >= 2 {
                assert(nums[0] == n@[0] as nat && nums[1] == n@[1] as nat);
                if n[0] >= 320 && n[1] >= 320 {
                    return Some((n[0], n[1]));
                }
            }
            return None;
        }
        i = i + 1;
    }
    proof {
        seqs::lemma_first_from_is(all, f, 0, i as int);
    }
    None
}

/// The phones that count are exactly those whose row says `device`, in the order of the rows.
pub proof fn authorized_phones_say_device(
    rows: Seq<(Seq<char>, Seq<char>)>,
    more: Seq<(Seq<char>, Seq<char>)>,
    serial: Seq<char>,
)
    ensures
        authorized(rows).contains(serial) <==> rows.contains((serial, "device"@)),
        authorized(rows + more) == authorized(rows) + authorized(more),
        authorized(seq![(serial, "device"@)]) == seq![serial],
{
    let f = |r: (Seq<char>, Seq<char>)|
        if r.1 == "device"@ {
            Some(r.0)
        } else {
            None
        };
    seqs::lemma_collect_contains(rows, f, serial);
    seqs::lemma_collect_add(rows, more, f);
    if rows.contains((serial, "device"@)) {
        let j = choose|j: int| 0 <= j < rows.len() && rows[j] == (serial, "device"@);
        assert(f(rows[j]) == Some(serial));
    }
    if authorized(rows).contains(serial) {
        let j = choose|j: int| 0 <= j < rows.len() && f(#[trigger] rows[j]) == Some(serial);
        assert(rows[j] == (serial, "device"@));
    }
    let one = seq![(serial, "device"@)];
    reveal_with_fuel(seqs::collect, 2);
    assert(one.drop_last() =~= Seq::empty());
    assert(authorized(one) =~= seq![serial]);
}

/// A session gets a phone exactly where the phone is authorized and its identifier ends in the
/// serial number, or in the masked serial number, of that phone.
pub proof fn sessions_get_their_own_phone(
    rows: Seq<(Seq<char>, Seq<char>)>,
    kind: Seq<char>,
    name: Seq<char>,
    serial: Seq<char>,
)
    requires
        !name.contains(':'),
    ensures
        serials_for(rows, kind.push(':') + name).contains(serial) <==> rows.contains(
            (serial, "device"@),
        ) && (serial == name || usb_devices::masked(serial) == name),
{
    let id = kind.push(':') + name;
    lemma_behind_last(kind, name, id.len() as int);
    assert(id.skip(kind.len() as int + 1) =~= name);
    let wanted = text::behind_last(id, ':');
    assert(wanted == name);
    let f = |s: Seq<char>|
        if s == wanted || usb_devices::masked(s) == wanted {
            Some(s)
        } else {
            None
        };
    let all = authorized(rows);
    authorized_phones_say_device(rows, rows, serial);
    seqs::lemma_collect_contains(all, f, serial);
    if serials_for(rows, id).contains(serial) {
        let j = choose|j: int| 0 <= j < all.len() && f(#[trigger] all[j]) == Some(serial);
        assert(all[j] == serial);
    }
    if all.contains(serial) && (serial == name || usb_devices::masked(serial) == name) {
        let j = choose|j: int| 0 <= j < all.len() && all[j] == serial;
        assert(f(all[j]) == Some(serial));
    }
}

proof fn lemma_behind_last(kind: Seq<char>, name: Seq<char>, n: int)
    requires
        !name.contains(':'),
        kind.len() < n <= kind.len() + 1 + name.len(),
    ensures
        text::last_at(kind.push(':') + name, ':', n) == kind.len(),
    decreases n,
{
    let id = kind.push(':') + name;
    if n > kind.len() + 1 {
        assert(id[n - 1] == name[n - 1 - (kind.len() + 1)]);
        lemma_behind_last(kind, name, n - 1);
    } else {
        assert(id[n - 1] == ':');
    }
}

/// A screen has a size only where both of its sides are at least 320, and then the width comes
/// first: the two are the first numbers on the line that speaks of a size.
pub proof fn screens_are_not_tiny(output: Seq<char>)
    ensures
        wm_size(output) matches Some((w, h)) ==> 320 <= w && 320 <= h && exists|i: int|
            0 <= i < text::lines_of(output).len() && text::occurs(
                #[trigger] text::lines_of(output)[i],
                "size"@,
            ) && seq![w, h].is_prefix_of(numbers_in(text::lines_of(output)[i])),
{
    if let Some((w, h)) = wm_size(output) {
        let lines = text::lines_of(output);
        let f = |l: Seq<char>| text::occurs(l, "size"@);
        let i = seqs::first_from(lines, f, 0);
        seqs::lemma_first_from(lines, f, 0);
        assert(f(lines[i]));
        let n = numbers_in(lines[i]);
        assert(n.subrange(0, 2) =~= seq![w, h]);
        assert(text::occurs(lines[i], "size"@));
    }
}

/// The size on the first line that speaks of one is read as it stands there, the width before the
/// height, whatever words stand before and between them, exactly where both are at least 320.
pub proof fn screen_sizes_read_back(
    output: Seq<char>,
    i: int,
    before: Seq<char>,
    w: u32,
    between: Seq<char>,
    h: u32,
    behind: Seq<char>,
)
    requires
        0 <= i < text::lines_of(output).len(),
        text::lines_of(output)[i] == before + text::dec(w as nat) + between + text::dec(h as nat)
            + behind,
        text::occurs(text::lines_of(output)[i], "size"@),
        forall|j: int|
            0 <= j < i ==> !text::occurs(#[trigger] text::lines_of(output)[j], "size"@),
        forall|j: int| 0 <= j < before.len() ==> !text::is_digit(#[trigger] before[j]),
        forall|j: int| 0 <= j < between.len() ==> !text::is_digit(#[trigger] between[j]),
        between.len() > 0,
        behind.len() > 0 ==> !text::is_digit(behind[0]),
    ensures
        wm_size(output) == (if 320 <= w && 320 <= h {
            Some((w as nat, h as nat))
        } else {
            None
        }),
{
    let lines = text::lines_of(output);
    let f = |l: Seq<char>| text::occurs(l, "size"@);
    assert forall|j: int| 0 <= j < i implies !f(#[trigger] lines[j]) by {}
    assert(f(lines[i]));
    seqs::lemma_first_from_is(lines, f, 0, i);
    let g = |s: Seq<char>| text::parsed(s, u32::MAX as nat);
    text::decimal_numbers_read_back(w as nat, u32::MAX as nat);
    text::decimal_numbers_read_back(h as nat, u32::MAX as nat);
    text::lemma_two_numbers(before, w as nat, between, h as nat, behind, g);
    let n = numbers_in(lines[i]);
    assert(n == seqs::collect(text::split_by(lines[i], |c: char| !text::is_digit(c)), g));
    assert(n.subrange(0, 2)[0] == w as nat && n.subrange(0, 2)[1] == h as nat);
    assert(n[0] == w as nat && n[1] == h as nat);
}

/// Serial numbers are shown masked: a short one wholly, any other by its first two and last four
/// characters, and each row with the status that it says.
pub proof fn rows_are_shown_masked(output: Seq<char>, i: int)
    requires
        0 <= i < status_rows(output).len(),
        text::all_ascii(status_rows(output)[i].0),
    ensures
        shown_rows(output).len() == status_rows(output).len(),
        ({
            let serial = status_rows(output)[i].0;
            let shown = shown_rows(output)[i];
            &&& shown.status == status_rows(output)[i].1
            &&& serial.len() <= 4 ==> shown.serial_masked == "****"@
            &&& serial.len() > 4 ==> shown.serial_masked == serial.take(2) + "****"@ + serial.skip(
                serial.len() - 4,
            )
        }),
{
    let serial = status_rows(output)[i].0;
    text::ascii_texts_are_cut_by_character(serial, 2);
    text::ascii_texts_are_cut_by_character(serial, 4);
}

/// The arguments with which `adb` is asked for the screen size.
pub fn wm_size_arguments(serial: Option<&str>) -> (r: Vec<String>)
    ensures
        text::texts(r@) == selector(serial) + seq!["shell"@, "wm"@, "size"@],
{
    let mut args = selector_arguments(serial);
    push_text(&mut args, "shell");
    push_text(&mut args, "wm");
    push_text(&mut args, "size");
    assert(text::texts(args@) =~= selector(serial) + seq!["shell"@, "wm"@, "size"@]);
    args
}

// ---------------------------------------------------------------------------
// Input commands
// ---------------------------------------------------------------------------

/// The arguments that select a device.
pub open spec fn selector(serial: Option<&str>) -> Seq<Seq<char>> {
    match serial {
        Some(s) => seq!["-s"@, s@],
        None => Seq::empty(),
    }
}

/// Appends a string to a list of strings.
pub(crate) fn push_text(v: &mut Vec<String>, s: &str)
    ensures
        text::texts(final(v)@) == text::texts(old(v)@).push(s@),
{
    let ghost before = v@;
    v.push(text::own(s));
    assert(text::texts(v@) =~= text::texts(before).push(s@));
}

/// The arguments that select a device.
pub(crate) fn selector_arguments(serial: Option<&str>) -> (r: Vec<String>)
    ensures
        text::texts(r@) == selector(serial),
{
    let mut args: Vec<String> = Vec::new();
    assert(text::texts(args@) =~= Seq::<Seq<char>>::empty());
    match serial {
        Some(s) => {
            push_text(&mut args, "-s");
            push_text(&mut args, s);
            assert(text::texts(args@) =~= seq!["-s"@, s@]);
        },
        None => {},
    }
    args
}

/// The contents of a slice of string slices.
pub open spec fn str_texts(v: Seq<&str>) -> Seq<Seq<char>> {
    Seq::new(v.len(), |i: int| v[i]@)
}

/// The arguments of `adb shell input`, after those that select a device.
pub fn adb_input_args(serial: Option<&str>, input_args: &[&str]) -> (r: Vec<String>)
    ensures
        text::texts(r@) == selector(serial) + seq!["shell"@, "input"@] + str_texts(input_args@),
{
    let mut args = selector_arguments(serial);
    push_text(&mut args, "shell");
    push_text(&mut args, "input");
    let ghost head = text::texts(args@);
    assert(head =~= selector(serial) + seq!["shell"@, "input"@]);
    let mut i: usize = 0;
    while i < input_args.len()
        invariant
            i <= input_args@.len(),
            text::texts(args@) =~= head + str_texts(input_args@).take(i as int),
        decreases input_args@.len() - i,
    {
        push_text(&mut args, input_args[i]);
        i = i + 1;
    }
    assert(str_texts(input_args@).take(i as int) =~= str_texts(input_args@));
    args
}

/// A text as `input text` takes it: each space and each percent sign becomes `%s`.
pub open spec fn escaped(s: Seq<char>) -> Seq<char>
    decreases s.len(),
{
    if s.len() == 0 {
        Seq::empty()
    } else if s.last() == ' ' || s.last() == '%' {
        escaped(s.drop_last()) + "%s"@
    } else {
        escaped(s.drop_last()).push(s.last())
    }
}

/// Escapes a text for `input text`.
pub fn escape_adb_text(text: &str) -> (r: String)
    ensures
        r@ == escaped(text@),
{
    let v = crate::text::chars_of(text);
    let mut out = String::new();
    let mut i: usize = 0;
    assert(v@.take(0) =~= Seq::<char>::empty());
    while i < v.len()
        invariant
            i <= v@.len(),
            out@ == escaped(v@.take(i as int)),
        decreases v@.len() - i,
    {
        assert(v@.take(i + 1).drop_last() =~= v@.take(i as int));
        if v[i] == ' ' || v[i] == '%' {
            out.append("%s");
        } else {
            crate::text::push_char(&mut out, v[i]);
        }
        i = i + 1;
    }
    assert(v@.take(i as int) =~= v@);
    out
}

/// Texts are escaped character by character: a text is escaped as its parts are, a space and a
/// percent sign become `%s`, and every other character stays.
pub proof fn texts_are_escaped_by_character(a: Seq<char>, b: Seq<char>, c: char)
    ensures
        escaped(a + b) == escaped(a) + escaped(b),
        c == ' ' || c == '%' ==> escaped(seq![c]) == seq!['%', 's'],
        c != ' ' && c != '%' ==> escaped(seq![c]) == seq![c],
    decreases b.len(),
{
    reveal_strlit("%s");
    reveal_with_fuel(escaped, 2);
    assert(seq![c].drop_last() =~= Seq::<char>::empty());
    assert("%s"@ =~= seq!['%', 's']);
    assert(Seq::<char>::empty() + "%s"@ =~= "%s"@);
    assert(Seq::<char>::empty().push(c) =~= seq![c]);
    if b.len() == 0 {
        assert(a + b =~= a);
        assert(escaped(a) + escaped(b) =~= escaped(a));
    } else {
        assert((a + b).drop_last() =~= a + b.drop_last());
        texts_are_escaped_by_character(a, b.drop_last(), c);
        assert(escaped(a + b) =~= escaped(a) + escaped(b));
    }
}

/// A text without spaces and percent signs is sent as it is.
pub proof fn plain_texts_stay(s: Seq<char>)
    requires
        !s.contains(' '),
        !s.contains('%'),
    ensures
        escaped(s) == s,
    decreases s.len(),
{
    if s.len() > 0 {
        assert(s[s.len() - 1] == s.last());
        assert forall|i: int| 0 <= i < s.drop_last().len() implies s.drop_last()[i] != ' '
            && s.drop_last()[i] != '%' by {
            assert(s.drop_last()[i] == s[i]);
        }
        plain_texts_stay(s.drop_last());
        assert(s.drop_last().push(s.last()) =~= s);
    }
}

/// An escaped text holds no space.
pub proof fn escaped_text_has_no_space(s: Seq<char>)
    ensures
        !escaped(s).contains(' '),
    decreases s.len(),
{
    reveal_strlit("%s");
    if s.len() > 0 {
        escaped_text_has_no_space(s.drop_last());
        let before = escaped(s.drop_last());
        if escaped(s).contains(' ') {
            let i = choose|i: int| 0 <= i < escaped(s).len() && escaped(s)[i] == ' ';
            if i < before.len() {
                assert(before[i] == ' ');
                assert(before.contains(' '));
            }
        }
    }
}

/// The one character behind a prefix, if exactly one follows it and it is ASCII.
pub open spec fn single_behind(code: Seq<char>, prefix: Seq<char>) -> Option<char> {
    match text::behind(code, prefix) {
        Some(rest) => if rest.len() == 1 && (rest[0] as u32) < 0x80 {
            Some(rest[0])
        } else {
            None
        },
        None => None,
    }
}

fn single_after(code: &str, prefix: &str) -> (r: Option<char>)
    ensures
        r == single_behind(code@, prefix@),
{
    match text::strip_prefix(code, prefix) {
        Some(rest) => {
            let v = text::chars_of(rest.as_str());
            if v.len() == 1 && (v[0] as u32) < 0x80 {
                Some(v[0])
            } else {
                None
            }
        },
        None => None,
    }
}

/// The name and the number of a key that has a name of its own.
pub open spec fn named_key(code: Seq<char>) -> Option<(Seq<char>, u32)> {
    if code == "Enter"@ {
        Some(("KEYCODE_ENTER"@, 66u32))
    } else if code == "Backspace"@ {
        Some(("KEYCODE_DEL"@, 67u32))
    } else if code == "Tab"@ {
        Some(("KEYCODE_TAB"@, 61u32))
    } else if code == "Space"@ {
        Some(("KEYCODE_SPACE"@, 62u32))
    } else if code == "Escape"@ {
        Some(("KEYCODE_ESCAPE"@, 111u32))
    } else if code == "ArrowUp"@ {
        Some(("KEYCODE_DPAD_UP"@, 19u32))
    } else if code == "ArrowDown"@ {
        Some(("KEYCODE_DPAD_DOWN"@, 20u32))
    } else if code == "ArrowLeft"@ {
        Some(("KEYCODE_DPAD_LEFT"@, 21u32))
    } else if code == "ArrowRight"@ {
        Some(("KEYCODE_DPAD_RIGHT"@, 22u32))
    } else if code == "Home"@ {
        Some(("KEYCODE_HOME"@, 3u32))
    } else if code == "End"@ {
        Some(("KEYCODE_MOVE_END"@, 123u32))
    } else if code == "PageUp"@ {
        Some(("KEYCODE_PAGE_UP"@, 92u32))
    } else if code == "PageDown"@ {
        Some(("KEYCODE_PAGE_DOWN"@, 93u32))
    } else {
        None
    }
}

fn named_key_of(code: &str) -> (r: Option<(&'static str, u32)>)
    ensures
        match r {
            Some((name, n)) => named_key(code@) == Some((name@, n)),
            None => named_key(code@) is None,
        },
{
    if text::same(code, "Enter") {
        Some(("KEYCODE_ENTER", 66u32))
    } else if text::same(code, "Backspace") {
        Some(("KEYCODE_DEL", 67u32))
    } else if text::same(code, "Tab") {
        Some(("KEYCODE_TAB", 61u32))
    } else if text::same(code, "Space") {
        Some(("KEYCODE_SPACE", 62u32))
    } else if text::same(code, "Escape") {
        Some(("KEYCODE_ESCAPE", 111u32))
    } else if text::same(code, "ArrowUp") {
        Some(("KEYCODE_DPAD_UP", 19u32))
    } else if text::same(code, "ArrowDown") {
        Some(("KEYCODE_DPAD_DOWN", 20u32))
    } else if text::same(code, "ArrowLeft") {
        Some(("KEYCODE_DPAD_LEFT", 21u32))
    } else if text::same(code, "ArrowRight") {
        Some(("KEYCODE_DPAD_RIGHT", 22u32))
    } else if text::same(code, "Home") {
        Some(("KEYCODE_HOME", 3u32))
    } else if text::same(code, "End") {
        Some(("KEYCODE_MOVE_END", 123u32))
    } else if text::same(code, "PageUp") {
        Some(("KEYCODE_PAGE_UP", 92u32))
    } else if text::same(code, "PageDown") {
        Some(("KEYCODE_PAGE_DOWN", 93u32))
    } else {
        None
    }
}

/// The Android name of the key with a DOM key code: `KEYCODE_` and the letter or digit, or a
/// name of its own.
pub open spec fn keycode_name(code: Seq<char>) -> Option<Seq<char>> {
    if text::stands_at(code, "Key"@, 0) {
        match single_behind(code, "Key"@) {
            Some(c) => if text::is_lower(c) || text::is_upper(c) {
                Some("KEYCODE_"@.push(text::upper(c)))
            } else {
                None
            },
            None => None,
        }
    } else if text::stands_at(code, "Digit"@, 0) {
        match single_behind(code, "Digit"@) {
            Some(c) => if text::is_digit(c) {
                Some("KEYCODE_"@.push(c))
            } else {
                None
            },
            None => None,
        }
    } else {
        match named_key(code) {
            Some((name, _)) => Some(name),
            None => None,
        }
    }
}

/// `KEYCODE_` and a capital letter or a digit.
fn lettered_keycode(c: char) -> (r: &'static str)
    requires
        text::is_upper(c) || text::is_digit(c),
    ensures
        r@ == "KEYCODE_"@.push(c),
{
    proof {
        reveal_strlit("KEYCODE_");
        reveal_strlit("KEYCODE_A");
        reveal_strlit("KEYCODE_B");
        reveal_strlit("KEYCODE_C");
        reveal_strlit("KEYCODE_D");
        reveal_strlit("KEYCODE_E");
        reveal_strlit("KEYCODE_F");
        reveal_strlit("KEYCODE_G");
        reveal_strlit("KEYCODE_H");
        reveal_strlit("KEYCODE_I");
        reveal_strlit("KEYCODE_J");
        reveal_strlit("KEYCODE_K");
        reveal_strlit("KEYCODE_L");
        reveal_strlit("KEYCODE_M");
        reveal_strlit("KEYCODE_N");
        reveal_strlit("KEYCODE_O");
        reveal_strlit("KEYCODE_P");
        reveal_strlit("KEYCODE_Q");
        reveal_strlit("KEYCODE_R");
        reveal_strlit("KEYCODE_S");
        reveal_strlit("KEYCODE_T");
        reveal_strlit("KEYCODE_U");
        reveal_strlit("KEYCODE_V");
        reveal_strlit("KEYCODE_W");
        reveal_strlit("KEYCODE_X");
        reveal_strlit("KEYCODE_Y");
        reveal_strlit("KEYCODE_Z");
        reveal_strlit("KEYCODE_0");
        reveal_strlit("KEYCODE_1");
        reveal_strlit("KEYCODE_2");
        reveal_strlit("KEYCODE_3");
        reveal_strlit("KEYCODE_4");
        reveal_strlit("KEYCODE_5");
        reveal_strlit("KEYCODE_6");
        reveal_strlit("KEYCODE_7");
        reveal_strlit("KEYCODE_8");
        reveal_strlit("KEYCODE_9");
    }
    let r = match c {
        'A' => "KEYCODE_A",
        'B' => "KEYCODE_B",
        'C' => "KEYCODE_C",
        'D' => "KEYCODE_D",
        'E' => "KEYCODE_E",
        'F' => "KEYCODE_F",
        'G' => "KEYCODE_G",
        'H' => "KEYCODE_H",
        'I' => "KEYCODE_I",
        'J' => "KEYCODE_J",
        'K' => "KEYCODE_K",
        'L' => "KEYCODE_L",
        'M' => "KEYCODE_M",
        'N' => "KEYCODE_N",
        'O' => "KEYCODE_O",
        'P' => "KEYCODE_P",
        'Q' => "KEYCODE_Q",
        'R' => "KEYCODE_R",
        'S' => "KEYCODE_S",
        'T' => "KEYCODE_T",
        'U' => "KEYCODE_U",
        'V' => "KEYCODE_V",
        'W' => "KEYCODE_W",
        'X' => "KEYCODE_X",
        'Y' => "KEYCODE_Y",
        'Z' => "KEYCODE_Z",
        '0' => "KEYCODE_0",
        '1' => "KEYCODE_1",
        '2' => "KEYCODE_2",
        '3' => "KEYCODE_3",
        '4' => "KEYCODE_4",
        '5' => "KEYCODE_5",
        '6' => "KEYCODE_6",
        '7' => "KEYCODE_7",
        '8' => "KEYCODE_8",
        '9' => "KEYCODE_9",
        _ => "KEYCODE_",
    };
    assert(r@ =~= "KEYCODE_"@.push(c));
    r
}

/// The contents of an optional string slice.
pub open spec fn opt_str(v: Option<&str>) -> Option<Seq<char>> {
    match v {
        Some(s) => Some(s@),
        None => None,
    }
}

/// The Android name of the key with a DOM key code.
pub fn android_keycode(code: &str) -> (r: Option<&'static str>)
    ensures
        opt_str(r) == keycode_name(code@),
{
    if text::starts_with(code, "Key") {
        match single_after(code, "Key") {
            Some(c) => {
                let u = text::upper_char(c);
                if 'A' <= u && u <= 'Z' {
                    Some(lettered_keycode(u))
                } else {
                    None
                }
            },
            None => None,
        }
    } else if text::starts_with(code, "Digit") {
        match single_after(code, "Digit") {
            Some(c) => if text::digit(c) {
                Some(lettered_keycode(c))
            } else {
                None
            },
            None => None,
        }
    } else {
        match named_key_of(code) {
            Some((name, _)) => Some(name),
            None => None,
        }
    }
}

/// The Android number of the key with a DOM key code: 29 and up for the letters, 7 and up for
/// the digits.
pub open spec fn keycode_number(code: Seq<char>) -> Option<u32> {
    if text::stands_at(code, "Key"@, 0) {
        match single_behind(code, "Key"@) {
            Some(c) => if text::is_lower(c) || text::is_upper(c) {
                Some((29 + (text::upper(c) as u32 - 65)) as u32)
            } else {
                None
            },
            None => None,
        }
    } else if text::stands_at(code, "Digit"@, 0) {
        match single_behind(code, "Digit"@) {
            Some(c) => if text::is_digit(c) {
                Some((7 + (c as u32 - 48)) as u32)
            } else {
                None
            },
            None => None,
        }
    } else {
        match named_key(code) {
            Some((_, n)) => Some(n),
            None => None,
        }
    }
}

/// The Android number of the key with a DOM key code.
pub fn android_keycode_value(code: &str) -> (r: Option<u32>)
    ensures
        r == keycode_number(code@),
{
    if text::starts_with(code, "Key") {
        match single_after(code, "Key") {
            Some(c) => {
                let u = text::upper_char(c);
                if 'A' <= u && u <= 'Z' {
                    Some(29 + (u as u32 - 65))
                } else {
                    None
                }
            },
            None => None,
        }
    } else if text::starts_with(code, "Digit") {
        match single_after(code, "Digit") {
            Some(c) => if text::digit(c) {
                Some(7 + (c as u32 - 48))
            } else {
                None
            },
            None => None,
        }
    } else {
        match named_key_of(code) {
            Some((_, n)) => Some(n),
            None => None,
        }
    }
}

/// A key has a name exactly when it has a number.
pub proof fn named_keys_have_numbers(code: Seq<char>)
    ensures
        keycode_name(code) is Some <==> keycode_number(code) is Some,
{
}

/// The DOM code and the Android name of the key with an Android number, as Android's own list of
/// key codes has them.
pub open spec fn key_with_number(n: u32) -> Option<(Seq<char>, Seq<char>)> {
    if 7 <= n <= 16 {
        let c = (n - 7 + 48) as char;
        Some(("Digit"@.push(c), "KEYCODE_"@.push(c)))
    } else if 29 <= n <= 54 {
        let c = (n - 29 + 65) as char;
        Some(("Key"@.push(c), "KEYCODE_"@.push(c)))
    } else if n == 3 {
        Some(("Home"@, "KEYCODE_HOME"@))
    } else if n == 19 {
        Some(("ArrowUp"@, "KEYCODE_DPAD_UP"@))
    } else if n == 20 {
        Some(("ArrowDown"@, "KEYCODE_DPAD_DOWN"@))
    } else if n == 21 {
        Some(("ArrowLeft"@, "KEYCODE_DPAD_LEFT"@))
    } else if n == 22 {
        Some(("ArrowRight"@, "KEYCODE_DPAD_RIGHT"@))
    } else if n == 61 {
        Some(("Tab"@, "KEYCODE_TAB"@))
    } else if n == 62 {
        Some(("Space"@, "KEYCODE_SPACE"@))
    } else if n == 66 {
        Some(("Enter"@, "KEYCODE_ENTER"@))
    } else if n == 67 {
        Some(("Backspace"@, "KEYCODE_DEL"@))
    } else if n == 92 {
        Some(("PageUp"@, "KEYCODE_PAGE_UP"@))
    } else if n == 93 {
        Some(("PageDown"@, "KEYCODE_PAGE_DOWN"@))
    } else if n == 111 {
        Some(("Escape"@, "KEYCODE_ESCAPE"@))
    } else if n == 123 {
        Some(("End"@, "KEYCODE_MOVE_END"@))
    } else {
        None
    }
}

proof fn lemma_key_texts()
    ensures
        "Enter"@.len() == 5 && "Enter"@[0] == 'E',
        "Space"@.len() == 5 && "Space"@[0] == 'S',
        "Backspace"@.len() == 9 && "Backspace"@[0] == 'B',
        "ArrowDown"@.len() == 9 && "ArrowDown"@[0] == 'A' && "ArrowDown"@[5] == 'D',
        "ArrowLeft"@.len() == 9 && "ArrowLeft"@[0] == 'A' && "ArrowLeft"@[5] == 'L',
        "Tab"@.len() == 3 && "Tab"@[0] == 'T',
        "End"@.len() == 3 && "End"@[0] == 'E',
        "Escape"@.len() == 6 && "Escape"@[0] == 'E',
        "PageUp"@.len() == 6 && "PageUp"@[0] == 'P',
        "ArrowUp"@.len() == 7 && "ArrowUp"@[0] == 'A',
        "ArrowRight"@.len() == 10 && "ArrowRight"@[0] == 'A',
        "Home"@.len() == 4 && "Home"@[0] == 'H',
        "PageDown"@.len() == 8 && "PageDown"@[0] == 'P',
        "Key"@.len() == 3 && "Key"@[0] == 'K' && "Key"@[1] == 'e' && "Key"@[2] == 'y',
        "Digit"@.len() == 5 && "Digit"@[0] == 'D',
{
    reveal_strlit("Enter");
    reveal_strlit("Space");
    reveal_strlit("Backspace");
    reveal_strlit("ArrowDown");
    reveal_strlit("ArrowLeft");
    reveal_strlit("Tab");
    reveal_strlit("End");
    reveal_strlit("Escape");
    reveal_strlit("PageUp");
    reveal_strlit("ArrowUp");
    reveal_strlit("ArrowRight");
    reveal_strlit("Home");
    reveal_strlit("PageDown");
    reveal_strlit("Key");
    reveal_strlit("Digit");
}

/// Whatever key Android's list has under a number is found by its code, with that number and its
/// name.
pub proof fn listed_keys_are_found(n: u32)
    requires
        key_with_number(n) is Some,
    ensures
        keycode_number(key_with_number(n)->Some_0.0) == Some(n),
        keycode_name(key_with_number(n)->Some_0.0) == Some(key_with_number(n)->Some_0.1),
{
    lemma_key_texts();
    let code = key_with_number(n)->Some_0.0;
    if 7 <= n <= 16 {
        let c = (n - 7 + 48) as char;
        assert(code.subrange(0, 5) =~= "Digit"@);
        assert(code.skip(5) =~= seq![c]);
        assert(code[0] == 'D');
        if text::stands_at(code, "Key"@, 0) {
            assert(code.subrange(0, 3)[0] == 'K');
        }
    } else if 29 <= n <= 54 {
        let c = (n - 29 + 65) as char;
        assert(code.subrange(0, 3) =~= "Key"@);
        assert(code.skip(3) =~= seq![c]);
    } else {
        if text::stands_at(code, "Key"@, 0) {
            assert(code.subrange(0, 3)[0] == 'K');
        }
        if text::stands_at(code, "Digit"@, 0) {
            assert(code.subrange(0, 5)[0] == 'D');
        }
    }
}

/// Whatever code has a number has it in Android's list, under the same name; but for letters,
/// whose case does not matter, the code is the one in the list.
pub proof fn numbered_keys_are_listed(code: Seq<char>)
    requires
        keycode_number(code) is Some,
    ensures
        ({
            let listed = key_with_number(keycode_number(code)->Some_0);
            &&& listed is Some
            &&& keycode_name(code) == Some(listed->Some_0.1)
            &&& code == listed->Some_0.0 || (code.len() == 4 && code.take(3) == "Key"@
                && text::is_lower(code[3]) && code[3] as u32 - 32 == listed->Some_0.0[3] as u32)
        }),
{
    lemma_key_texts();
    let n = keycode_number(code)->Some_0;
    if text::stands_at(code, "Key"@, 0) {
        let c = single_behind(code, "Key"@)->Some_0;
        assert(code.skip(3).len() == 1 && code.skip(3)[0] == c);
        assert(code[3] == c);
        assert(code.take(3) =~= code.subrange(0, 3));
        let l = key_with_number(n)->Some_0.0;
        if text::is_upper(c) {
            assert(l =~= code) by {
                assert forall|i: int| 0 <= i < 3 implies code[i] == "Key"@[i] by {
                    assert(code.subrange(0, 3)[i] == code[i]);
                }
            }
        }
    } else if text::stands_at(code, "Digit"@, 0) {
        let c = single_behind(code, "Digit"@)->Some_0;
        assert(code.skip(5).len() == 1 && code.skip(5)[0] == c);
        let l = key_with_number(n)->Some_0.0;
        assert(l =~= code) by {
            assert forall|i: int| 0 <= i < 5 implies code[i] == "Digit"@[i] by {
                assert(code.subrange(0, 5)[i] == code[i]);
            }
        }
    }
}

/// The bits of the modifier keys in an Android key event.
pub fn android_metastate(ctrl: bool, shift: bool, alt: bool, meta: bool) -> (r: u32)
    ensures
        r == (if shift {
            1int
        } else {
            0
        }) + (if alt {
            2int
        } else {
            0
        }) + (if ctrl {
            0x1000int
        } else {
            0
        }) + (if meta {
            0x10000int
        } else {
            0
        }),
{
    let s: u32 = if shift {
        1
    } else {
        0
    };
    let a: u32 = if alt {
        2
    } else {
        0
    };
    let c: u32 = if ctrl {
        0x1000
    } else {
        0
    };
    let m: u32 = if meta {
        0x10000
    } else {
        0
    };
    s + a + c + m
}

/// The input commands for one device, as the arguments with which `adb` is called.
pub struct AdbInputController {
    pub adb: String,
    pub serial: Option<String>,
}

impl AdbInputController {
    /// The arguments that select the device.
    pub open spec fn device(&self) -> Seq<Seq<char>> {
        match self.serial {
            Some(s) => seq!["-s"@, s@],
            None => Seq::empty(),
        }
    }

    /// The arguments of one input command.
    pub open spec fn command(&self, args: Seq<Seq<char>>) -> Seq<Seq<char>> {
        self.device() + seq!["shell"@, "input"@] + args
    }

    /// The arguments of a tap.
    pub open spec fn tapped(&self, x: u32, y: u32) -> Seq<Seq<char>> {
        self.command(seq!["tap"@, text::dec(x as nat), text::dec(y as nat)])
    }

    /// The arguments of one step of a touch.
    pub open spec fn touched(&self, action: Seq<char>, x: u32, y: u32) -> Seq<Seq<char>> {
        self.command(seq!["motionevent"@, action, text::dec(x as nat), text::dec(y as nat)])
    }

    /// The arguments of a key.
    pub open spec fn keyed(&self, keycode: Seq<char>) -> Seq<Seq<char>> {
        self.command(seq!["keyevent"@, keycode])
    }

    /// The arguments of a text.
    pub open spec fn typed(&self, s: Seq<char>) -> Seq<Seq<char>> {
        self.command(seq!["text"@, escaped(s)])
    }

    pub fn new(adb: String, serial: Option<String>) -> (r: Self)
        ensures
            r.adb == adb,
            r.serial == serial,
    {
        AdbInputController { adb, serial }
    }

    fn input(&self, args: &[&str]) -> (r: Vec<String>)
        ensures
            text::texts(r@) == self.command(str_texts(args@)),
    {
        match &self.serial {
            Some(s) => adb_input_args(Some(s.as_str()), args),
            None => adb_input_args(None, args),
        }
    }

    /// A tap at a position of the device's screen.
    pub fn tap(&self, x: u32, y: u32) -> (r: Vec<String>)
        ensures
            text::texts(r@) == self.tapped(x, y),
    {
        let xs = text::decimal(x as u64);
        let ys = text::decimal(y as u64);
        let args = ["tap", xs.as_str(), ys.as_str()];
        let r = self.input(&args);
        assert(str_texts(args@) =~= seq!["tap"@, text::dec(x as nat), text::dec(y as nat)]);
        r
    }

    fn motion(&self, action: &str, x: u32, y: u32) -> (r: Vec<String>)
        ensures
            text::texts(r@) == self.touched(action@, x, y),
    {
        let xs = text::decimal(x as u64);
        let ys = text::decimal(y as u64);
        let args = ["motionevent", action, xs.as_str(), ys.as_str()];
        let r = self.input(&args);
        assert(str_texts(args@) =~= seq![
            "motionevent"@,
            action@,
            text::dec(x as nat),
            text::dec(y as nat),
        ]);
        r
    }

    /// A touch that stays down.
    pub fn touch_down(&self, x: u32, y: u32) -> (r: Vec<String>)
        ensures
            text::texts(r@) == self.touched("DOWN"@, x, y),
    {
        self.motion("DOWN", x, y)
    }

    /// A touch that moves while it is down.
    pub fn touch_move(&self, x: u32, y: u32) -> (r: Vec<String>)
        ensures
            text::texts(r@) == self.touched("MOVE"@, x, y),
    {
        self.motion("MOVE", x, y)
    }

    /// The end of a touch.
    pub fn touch_up(&self, x: u32, y: u32) -> (r: Vec<String>)
        ensures
            text::texts(r@) == self.touched("UP"@, x, y),
    {
        self.motion("UP", x, y)
    }

    /// A key, pressed and released.
    pub fn key_event(&self, keycode: &str) -> (r: Vec<String>)
        ensures
            text::texts(r@) == self.keyed(keycode@),
    {
        let args = ["keyevent", keycode];
        let r = self.input(&args);
        assert(str_texts(args@) =~= seq!["keyevent"@, keycode@]);
        r
    }

    /// A text of ASCII characters, typed.
    pub fn insert_text(&self, text: &str) -> (r: Vec<String>)
        ensures
            crate::text::texts(r@) == self.typed(text@),
    {
        let e = escape_adb_text(text);
        let args = ["text", e.as_str()];
        let r = self.input(&args);
        assert(str_texts(args@) =~= seq!["text"@, escaped(text@)]);
        r
    }

    /// What came of an input command.
    pub fn outcome(run: Result<ToolRun, String>) -> (r: Result<(), AdapterError>)
        ensures
            match run {
                Err(why) => r matches Err(e) && e@ == AdapterError::Failed(
                    "执行 adb input 失败: "@ + why@,
                ),
                Ok(run) => if run.success {
                    r is Ok
                } else {
                    r matches Err(e) && e@ == AdapterError::Failed(
                        "adb input 返回 "@ + run@.status + "："@ + text::trimmed(run@.stderr),
                    )
                },
            },
    {
        match run {
            Err(why) => Err(
                AdapterError::Failed(text::cat2("执行 adb input 失败: ", why.as_str())),
            ),
            Ok(run) => if run.success {
                Ok(())
            } else {
                Err(
                    AdapterError::Failed(
                        text::cat4(
                            "adb input 返回 ",
                            run.status.as_str(),
                            "：",
                            text::trim(run.stderr.as_str()).as_str(),
                        ),
                    ),
                )
            },
        }
    }

    /// Whether a device is authorized, by a run of `adb devices`.
    pub fn check_ready(run: Result<String, String>) -> (r: Result<(), AdapterError>)
        ensures
            match run {
                Err(why) => r matches Err(e) && e@ == adb_not_run(why@),
                Ok(out) => if exists|i: int|
                    0 <= i < status_rows(out@).len() && (#[trigger] status_rows(out@)[i]).1
                        == "device"@ {
                    r is Ok
                } else {
                    r matches Err(e) && e@ == AdapterError::Failed(
                        "未找到已授权的 Android 设备；请开启 USB 调试并完成授权"@,
                    )
                },
            },
    {
        let out = match run {
            Ok(out) => out,
            Err(why) => {
                return Err(report_adb_not_run(why.as_str()));
            },
        };
        let rows = parse_adb_devices_raw(out.as_str());
        let ghost all = status_rows(out@);
        let mut i: usize = 0;
        while i < rows.len()
            invariant
                i <= rows@.len(),
                run == Ok::<String, String>(out),
                usb_devices::pairs(rows@) == all,
                all == status_rows(out@),
                forall|j: int| 0 <= j < i ==> (#[trigger] all[j]).1 != "device"@,
            decreases rows@.len() - i,
        {
            assert(all[i as int] == (rows@[i as int].0@, rows@[i as int].1@));
            if text::same(rows[i].1.as_str(), "device") {
                assert(status_rows(out@)[i as int].1 == "device"@);
                assert(i < status_rows(out@).len());
                assert(run is Ok && run->Ok_0 == out);
                return Ok(());
            }
            i = i + 1;
        }
        Err(
            AdapterError::Failed(
                text::own("未找到已授权的 Android 设备；请开启 USB 调试并完成授权"),
            ),
        )
    }
}

/// The numbers at the end of a list of arguments: the last but one and the last.
pub open spec fn ending_numbers(args: Seq<Seq<char>>) -> (Option<nat>, Option<nat>) {
    (
        text::parsed(args[args.len() - 2], u32::MAX as nat),
        text::parsed(args[args.len() - 1], u32::MAX as nat),
    )
}

/// Every input command goes to the device that was chosen, to its shell and there to `input`; a
/// tap and each step of a touch end in the position, across before down, and say before it what
/// they are; a key and a text say what they are and end in the key or the escaped text.
pub proof fn input_commands_read_back(
    c: AdbInputController,
    action: Seq<char>,
    x: u32,
    y: u32,
    word: Seq<char>,
)
    ensures
        ({
            let n: int = if c.serial is Some {
                2
            } else {
                0
            };
            let tap = c.tapped(x, y);
            let touch = c.touched(action, x, y);
            let key = c.keyed(word);
            let typed = c.typed(word);
            &&& tap.len() == n + 5 && touch.len() == n + 6 && key.len() == n + 4 && typed.len() == n
                + 4
            &&& c.serial matches Some(s) ==> tap[0] == "-s"@ && tap[1] == s@ && touch[0] == "-s"@
                && touch[1] == s@ && key[0] == "-s"@ && key[1] == s@ && typed[0] == "-s"@
                && typed[1] == s@
            &&& tap[n] == "shell"@ && touch[n] == "shell"@ && key[n] == "shell"@ && typed[n]
                == "shell"@
            &&& tap[n + 1] == "input"@ && touch[n + 1] == "input"@ && key[n + 1] == "input"@
                && typed[n + 1] == "input"@
            &&& tap[n + 2] == "tap"@ && touch[n + 2] == "motionevent"@ && touch[n + 3] == action
                && key[n + 2] == "keyevent"@ && typed[n + 2] == "text"@
            &&& ending_numbers(tap) == (Some(x as nat), Some(y as nat))
            &&& ending_numbers(touch) == (Some(x as nat), Some(y as nat))
            &&& key.last() == word && typed.last() == escaped(word)
        }),
{
    text::decimal_numbers_read_back(x as nat, u32::MAX as nat);
    text::decimal_numbers_read_back(y as nat, u32::MAX as nat);
}

/// Of a serial number that is long enough, the first two characters and the last four are shown;
/// of a short one, nothing.
pub proof fn serials_are_shown_by_their_ends(serial: Seq<char>)
    requires
        text::all_ascii(serial),
    ensures
        serial.len() <= 4 ==> masked_serial(serial) == "****"@,
        serial.len() > 4 ==> masked_serial(serial) == serial.take(2) + "****"@ + serial.skip(
            serial.len() - 4,
        ),
{
    text::ascii_texts_are_cut_by_character(serial, 2);
    text::ascii_texts_are_cut_by_character(serial, 4);
}

/// A row of the listing reads back as the serial number and the state of a device, whatever
/// white space stands between and around them; what follows is not read.
pub proof fn rows_of_the_listing_read_back(
    serial: Seq<char>,
    gap: Seq<char>,
    state: Seq<char>,
    end: Seq<char>,
)
    requires
        serial.len() > 0,
        state.len() > 0,
        gap.len() > 0,
        forall|i: int| 0 <= i < serial.len() ==> !text::is_space(#[trigger] serial[i]),
        forall|i: int| 0 <= i < state.len() ==> !text::is_space(#[trigger] state[i]),
        forall|i: int| 0 <= i < gap.len() ==> text::is_space(#[trigger] gap[i]),
        forall|i: int| 0 <= i < end.len() ==> text::is_space(#[trigger] end[i]),
        !text::stands_at(serial + gap + state, "List of devices"@, 0),
    ensures
        status_row(serial + gap + state + end) == Some((serial, state)),
{
    let t = serial + gap + state;
    let none = Seq::<char>::empty();
    assert(t[0] == serial[0]);
    assert(t.last() == state.last());
    text::white_space_around_a_text_is_trimmed(none, t, end);
    assert(none + t + end =~= serial + gap + state + end);
    text::two_words_are_read_apart(serial, gap, state, none);
    assert(serial + gap + state + none =~= t);
}

/// The heading of the listing and blank lines are no rows.
pub proof fn headings_are_no_rows(line: Seq<char>)
    ensures
        text::stands_at(text::trimmed(line), "List of devices"@, 0) ==> status_row(line) is None,
        text::trimmed(line).len() == 0 ==> status_row(line) is None,
{
}

/// A call goes to the phone that is named, and to whichever there is where none is.
pub proof fn calls_select_their_phone(serial: &str)
    ensures
        selector(None).len() == 0,
        selector(Some(serial)) == seq!["-s"@, serial@],
{
}

/// What a shell says of a tool is its path, without the end of the line; a shell that failed or
/// says nothing has not found it. On Windows only the first line counts.
pub proof fn shells_name_the_path(
    path: Seq<char>,
    status: Seq<char>,
    rest: Seq<char>,
    stderr: Seq<char>,
)
    requires
        path.len() > 0,
        !text::is_space(path[0]),
        !text::is_space(path.last()),
        forall|i: int| 0 <= i < path.len() ==> #[trigger] path[i] != '\n',
    ensures
        ({
            let run = ToolRun { success: true, status, stdout: path + seq!['\n'], stderr };
            &&& shell_path(HostPlatform::MacOs, run) == Some(path)
            &&& shell_path(HostPlatform::Other, run) == Some(path)
            &&& shell_path(HostPlatform::MacOs, ToolRun { success: false, ..run }) is None
            &&& shell_path(HostPlatform::MacOs, ToolRun { stdout: seq!['\n'], ..run }) is None
        }),
        ({
            let run = ToolRun {
                success: true,
                status,
                stdout: path + seq!['\r', '\n'] + rest,
                stderr,
            };
            &&& shell_path(HostPlatform::Windows, run) == Some(path)
            &&& shell_path(HostPlatform::Windows, ToolRun { success: false, ..run }) is None
        }),
{
    let none = Seq::<char>::empty();
    let nl = seq!['\n'];
    text::white_space_around_a_text_is_trimmed(none, path, nl);
    assert(none + path + nl =~= path + nl);
    text::lines_are_read_one_by_one(path, rest);
    text::inked_texts_are_not_trimmed(path);
    text::trimming_takes_white_space_only(nl);
    assert(text::trimmed(nl).len() == 0) by {
        if text::trimmed(nl).len() > 0 {
            assert(text::trimmed(nl)[0] == '\n');
        }
    }
}

/// A directory that is set to nothing but white space is not set.
pub proof fn blank_directories_are_not_set(platform: HostPlatform, d: Seq<char>, rest: Seq<char>)
    ensures
        not_blank(None) is None,
        text::trimmed(d).len() == 0 ==> not_blank(Some(d)) is None,
        text::trimmed(d).len() > 0 ==> not_blank(Some(d)) == Some(d),
        opt_below(platform, None, rest).len() == 0,
        opt_below(platform, Some(d), rest) == seq![integrations::below(platform, d, rest)],
{
}

} // verus!
