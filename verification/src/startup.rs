//! Launch at sign-in: the quoted command that the current user's `Run` key
//! holds, and the registry writes that turn the registration on, off, or
//! back to a snapshot.
use vstd::prelude::*;
use crate::digits::{decimal, push_decimal};
use crate::pnp::{
    lemma_zero_from_bounds, opt_text, slice_units, string_from_utf16, utf16_decode_lossy, utf16_well_formed,
    zero_from, zero_from_exec,
};

verus! {

/// The `Run` key of the current user, relative to `HKEY_CURRENT_USER`.
pub const RUN_KEY: &'static str = "Software\\Microsoft\\Windows\\CurrentVersion\\Run";

/// Explorer's per-user approval of `Run` entries.
pub const STARTUP_APPROVED_RUN_KEY: &'static str =
    "Software\\Microsoft\\Windows\\CurrentVersion\\Explorer\\StartupApproved\\Run";

/// The value name that this application owns under both keys.
pub const VALUE_NAME: &'static str = "KeyForge";

/// The longest command, in UTF-16 units, that the `Run` key runs.
pub const MAX_RUN_COMMAND_UTF16: usize = 260;

/// The twelve bytes that mark a `Run` entry as enabled: `2` and eleven zeros.
pub open spec fn startup_approved_enabled() -> Seq<u8> {
    seq![0x02u8, 0, 0, 0, 0, 0, 0, 0, 0, 0, 0, 0]
}

pub fn startup_approved_enabled_bytes() -> (r: Vec<u8>)
    ensures
        r@ == startup_approved_enabled(),
{
    let r = vec![0x02u8, 0, 0, 0, 0, 0, 0, 0, 0, 0, 0, 0];
    assert(r@ =~= startup_approved_enabled());
    r
}

/// The values this application owns in the startup keys, as they were when
/// the snapshot was taken (`None`: the value was absent).
#[derive(Debug, Clone, PartialEq, Eq)]
pub struct LaunchAtLoginRegistration {
    pub command: Option<String>,
    pub startup_approved: Option<Vec<u8>>,
}

#[derive(Debug)]
pub enum LaunchAtLoginError {
    Unsupported,
    ExecutablePath(String),
    CommandTooLong { length: usize, maximum: usize },
    Registry(String),
}

pub enum LaunchAtLoginErrorView {
    Unsupported,
    ExecutablePath(Seq<char>),
    CommandTooLong { length: usize, maximum: usize },
    Registry(Seq<char>),
}

impl View for LaunchAtLoginError {
    type V = LaunchAtLoginErrorView;

    open spec fn view(&self) -> LaunchAtLoginErrorView {
        match self {
            LaunchAtLoginError::Unsupported => LaunchAtLoginErrorView::Unsupported,
            LaunchAtLoginError::ExecutablePath(m) => LaunchAtLoginErrorView::ExecutablePath(m@),
            LaunchAtLoginError::CommandTooLong { length, maximum } =>
                LaunchAtLoginErrorView::CommandTooLong { length: *length, maximum: *maximum },
            LaunchAtLoginError::Registry(m) => LaunchAtLoginErrorView::Registry(m@),
        }
    }
}

/// The message shown for a startup registration error.
pub open spec fn launch_error_message(e: LaunchAtLoginErrorView) -> Seq<char> {
    match e {
        LaunchAtLoginErrorView::Unsupported =>
            "Windows login startup registration is only available on Windows"@,
        LaunchAtLoginErrorView::ExecutablePath(m) =>
            "could not determine the KeyForge executable path: "@ + m,
        LaunchAtLoginErrorView::CommandTooLong { length, maximum } =>
            "the KeyForge startup command is too long for the Windows Run key ("@ + decimal(
            length as nat,
        ) + " UTF-16 characters; maximum is "@ + decimal(maximum as nat) + ")"@,
        LaunchAtLoginErrorView::Registry(m) => "Windows startup registry operation failed: "@ + m,
    }
}

impl LaunchAtLoginError {
    pub fn message(&self) -> (r: String)
        ensures
            r@ == launch_error_message(self@),
    {
        match self {
            LaunchAtLoginError::Unsupported => {
                "Windows login startup registration is only available on Windows".to_owned()
            },
            LaunchAtLoginError::ExecutablePath(m) => {
                let mut s = "could not determine the KeyForge executable path: ".to_owned();
                s.append(m.as_str());
                s
            },
            LaunchAtLoginError::CommandTooLong { length, maximum } => {
                let mut s = "the KeyForge startup command is too long for the Windows Run key (".to_owned();
                push_decimal(&mut s, *length as u64);
                s.append(" UTF-16 characters; maximum is ");
                push_decimal(&mut s, *maximum as u64);
                s.append(")");
                s
            },
            LaunchAtLoginError::Registry(m) => {
                let mut s = "Windows startup registry operation failed: ".to_owned();
                s.append(m.as_str());
                s
            },
        }
    }

    pub fn duplicate(&self) -> (r: LaunchAtLoginError)
        ensures
            r@ == self@,
    {
        match self {
            LaunchAtLoginError::Unsupported => LaunchAtLoginError::Unsupported,
            LaunchAtLoginError::ExecutablePath(m) => LaunchAtLoginError::ExecutablePath(m.clone()),
            LaunchAtLoginError::CommandTooLong { length, maximum } =>
                LaunchAtLoginError::CommandTooLong { length: *length, maximum: *maximum },
            LaunchAtLoginError::Registry(m) => LaunchAtLoginError::Registry(m.clone()),
        }
    }
}

/// `n` backslashes.
pub open spec fn backslashes(n: nat) -> Seq<char> {
    Seq::new(n, |i: int| '\\')
}

/// What quoting has written after reading `s`, and how many backslashes it
/// has read since the last other character: a run of backslashes is only
/// written once it is known whether a quote follows.
pub open spec fn quote_progress(s: Seq<char>) -> (Seq<char>, nat)
    decreases s.len(),
{
    if s.len() == 0 {
        (seq!['"'], 0)
    } else {
        let (out, pending) = quote_progress(s.drop_last());
        let c = s.last();
        if c == '\\' {
            (out, pending + 1)
        } else if c == '"' {
            (out + backslashes(2 * pending + 1) + seq!['"'], 0)
        } else {
            (out + backslashes(pending) + seq![c], 0)
        }
    }
}

/// `s` as one argument of a Windows command line: in quotes, with each
/// quote escaped and each run of backslashes before a quote, or before the
/// closing quote, doubled.
pub open spec fn quoted_argument(s: Seq<char>) -> Seq<char> {
    let (out, pending) = quote_progress(s);
    out + backslashes(2 * pending) + seq!['"']
}

fn push_backslashes(out: &mut String, n: usize)
    ensures
        final(out)@ == old(out)@ + backslashes(n as nat),
{
    let ghost start = out@;
    let mut i: usize = 0;
    while i < n
        invariant
            i <= n,
            out@ == start + backslashes(i as nat),
        decreases n - i,
    {
        out.push('\\');
        assert(out@ =~= start + backslashes((i + 1) as nat));
        i = i + 1;
    }
}

/// Quotes one command-line argument so that Windows reads it back unchanged.
pub fn quote_windows_command_argument(argument: &str) -> (r: String)
    requires
        2 * argument@.len() + 2 <= usize::MAX,
    ensures
        r@ == quoted_argument(argument@),
{
    let mut quoted = String::new();
    quoted.push('"');
    let mut pending: usize = 0;
    let n = argument.unicode_len();
    let mut i: usize = 0;
    assert(argument@.subrange(0, 0) =~= Seq::<char>::empty());
    while i < n
        invariant
            n == argument@.len(),
            2 * n + 2 <= usize::MAX,
            i <= n,
            pending <= i,
            quote_progress(argument@.subrange(0, i as int)) == (quoted@, pending as nat),
        decreases n - i,
    {
        let c = argument.get_char(i);
        assert(argument@.subrange(0, i + 1).drop_last() =~= argument@.subrange(0, i as int));
        if c == '\\' {
            pending = pending + 1;
        } else if c == '"' {
            push_backslashes(&mut quoted, pending * 2 + 1);
            quoted.push('"');
            pending = 0;
        } else {
            push_backslashes(&mut quoted, pending);
            quoted.push(c);
            pending = 0;
        }
        i = i + 1;
    }
    assert(argument@.subrange(0, n as int) =~= argument@);
    push_backslashes(&mut quoted, pending * 2);
    quoted.push('"');
    quoted
}

/// The number of UTF-16 code units that encode `s` (`encode_utf16().count()`).
pub open spec fn utf16_len(s: Seq<char>) -> nat
    decreases s.len(),
{
    if s.len() == 0 {
        0
    } else {
        utf16_len(s.drop_last()) + if (s.last() as u32) < 0x10000 {
            1nat
        } else {
            2nat
        }
    }
}

pub fn utf16_len_exec(s: &str) -> (r: usize)
    requires
        utf16_len(s@) <= usize::MAX,
    ensures
        r == utf16_len(s@),
{
    let n = s.unicode_len();
    let mut count: usize = 0;
    let mut i: usize = 0;
    assert(s@.subrange(0, 0) =~= Seq::<char>::empty());
    while i < n
        invariant
            n == s@.len(),
            i <= n,
            utf16_len(s@) <= usize::MAX,
            count == utf16_len(s@.subrange(0, i as int)),
        decreases n - i,
    {
        assert(s@.subrange(0, i + 1).drop_last() =~= s@.subrange(0, i as int));
        proof {
            lemma_utf16_len_prefix(s@, i + 1);
        }
        if (s.get_char(i) as u32) < 0x10000 {
            count = count + 1;
        } else {
            count = count + 2;
        }
        i = i + 1;
    }
    assert(s@.subrange(0, n as int) =~= s@);
    count
}

/// The UTF-16 length of a prefix is at most that of the whole.
proof fn lemma_utf16_len_prefix(s: Seq<char>, i: int)
    requires
        0 <= i <= s.len(),
    ensures
        utf16_len(s.subrange(0, i)) <= utf16_len(s),
    decreases s.len(),
{
    if i == s.len() {
        assert(s.subrange(0, i) =~= s);
    } else {
        lemma_utf16_len_prefix(s.drop_last(), i);
        assert(s.drop_last().subrange(0, i) =~= s.subrange(0, i));
    }
}

/// The `Run` command for an executable path; too long a command is refused
/// with its length.
pub open spec fn run_command(executable: Seq<char>) -> Result<Seq<char>, LaunchAtLoginErrorView> {
    let command = quoted_argument(executable);
    if utf16_len(command) > MAX_RUN_COMMAND_UTF16 {
        Err(
            LaunchAtLoginErrorView::CommandTooLong {
                length: utf16_len(command) as usize,
                maximum: MAX_RUN_COMMAND_UTF16,
            },
        )
    } else {
        Ok(command)
    }
}

pub fn command_for_executable(executable: &str) -> (r: Result<String, LaunchAtLoginError>)
    requires
        2 * executable@.len() + 2 <= usize::MAX,
        utf16_len(quoted_argument(executable@)) <= usize::MAX,
    ensures
        match r {
            Ok(c) => run_command(executable@) == Ok::<Seq<char>, LaunchAtLoginErrorView>(c@),
            Err(e) => run_command(executable@) == Err::<Seq<char>, LaunchAtLoginErrorView>(e@),
        },
{
    let command = quote_windows_command_argument(executable);
    let length = utf16_len_exec(command.as_str());
    if length > MAX_RUN_COMMAND_UTF16 {
        return Err(LaunchAtLoginError::CommandTooLong { length, maximum: MAX_RUN_COMMAND_UTF16 });
    }
    Ok(command)
}

/// The two registry keys this application writes its value into.
#[derive(PartialEq, Eq, Structural, Clone, Copy, Debug)]
pub enum StartupKey {
    Run,
    StartupApproved,
}

impl StartupKey {
    /// The key's path under `HKEY_CURRENT_USER`.
    pub fn path(&self) -> (r: &'static str)
        ensures
            r@ == (match self {
                StartupKey::Run => RUN_KEY@,
                StartupKey::StartupApproved => STARTUP_APPROVED_RUN_KEY@,
            }),
    {
        match self {
            StartupKey::Run => RUN_KEY,
            StartupKey::StartupApproved => STARTUP_APPROVED_RUN_KEY,
        }
    }
}

/// One change to the value named `VALUE_NAME` under a startup key.
#[derive(Debug)]
pub enum RegistryChange {
    /// Write a `REG_SZ` value.
    SetString { key: StartupKey, text: String },
    /// Write a `REG_BINARY` value.
    SetBinary { key: StartupKey, bytes: Vec<u8> },
    /// Remove the value; an absent value counts as removed.
    Delete { key: StartupKey },
}

pub enum RegistryChangeView {
    SetString { key: StartupKey, text: Seq<char> },
    SetBinary { key: StartupKey, bytes: Seq<u8> },
    Delete { key: StartupKey },
}

impl View for RegistryChange {
    type V = RegistryChangeView;

    open spec fn view(&self) -> RegistryChangeView {
        match self {
            RegistryChange::SetString { key, text } => RegistryChangeView::SetString {
                key: *key,
                text: text@,
            },
            RegistryChange::SetBinary { key, bytes } => RegistryChangeView::SetBinary {
                key: *key,
                bytes: bytes@,
            },
            RegistryChange::Delete { key } => RegistryChangeView::Delete { key: *key },
        }
    }
}

pub open spec fn changes_view(v: Seq<RegistryChange>) -> Seq<RegistryChangeView> {
    v.map_values(|c: RegistryChange| c@)
}

/// The changes that register `command` to run at sign-in, explicitly
/// approved, or that remove both values.
pub open spec fn enable_changes(enabled: bool, command: Seq<char>) -> Seq<RegistryChangeView> {
    if enabled {
        seq![
            RegistryChangeView::SetString { key: StartupKey::Run, text: command },
            RegistryChangeView::SetBinary {
                key: StartupKey::StartupApproved,
                bytes: startup_approved_enabled(),
            },
        ]
    } else {
        seq![
            RegistryChangeView::Delete { key: StartupKey::Run },
            RegistryChangeView::Delete { key: StartupKey::StartupApproved },
        ]
    }
}

/// The changes that turn launch at sign-in on or off, in the order they are
/// made; the first one that fails ends the operation. Turning it on needs
/// the path of the running executable (or the reason it is unknown).
pub fn set_launch_at_login(enabled: bool, executable: Result<String, String>) -> (r: Result<
    Vec<RegistryChange>,
    LaunchAtLoginError,
>)
    requires
        executable is Ok ==> 2 * executable->Ok_0@.len() + 2 <= usize::MAX && utf16_len(
            quoted_argument(executable->Ok_0@),
        ) <= usize::MAX,
    ensures
        !enabled ==> (r matches Ok(v) && changes_view(v@) == enable_changes(false, Seq::empty())),
        enabled ==> match executable {
            Err(m) => (r matches Err(e) && e@ == LaunchAtLoginErrorView::ExecutablePath(m@)),
            Ok(path) => match run_command(path@) {
                Ok(command) => (r matches Ok(v) && changes_view(v@) == enable_changes(true, command)),
                Err(ev) => (r matches Err(e) && e@ == ev),
            },
        },
{
    let mut changes: Vec<RegistryChange> = Vec::new();
    if enabled {
        let path = match executable {
            Ok(path) => path,
            Err(message) => return Err(LaunchAtLoginError::ExecutablePath(message)),
        };
        let command = match command_for_executable(path.as_str()) {
            Ok(c) => c,
            Err(e) => return Err(e),
        };
        let ghost c = command@;
        changes.push(RegistryChange::SetString { key: StartupKey::Run, text: command });
        changes.push(
            RegistryChange::SetBinary {
                key: StartupKey::StartupApproved,
                bytes: startup_approved_enabled_bytes(),
            },
        );
        assert(changes_view(changes@) =~= enable_changes(true, c));
    } else {
        changes.push(RegistryChange::Delete { key: StartupKey::Run });
        changes.push(RegistryChange::Delete { key: StartupKey::StartupApproved });
        assert(changes_view(changes@) =~= enable_changes(false, Seq::empty()));
    }
    Ok(changes)
}

/// Reading both values back into a snapshot: the first read that failed
/// decides the error.
pub fn snapshot_launch_at_login(
    command: Result<Option<String>, LaunchAtLoginError>,
    startup_approved: Result<Option<Vec<u8>>, LaunchAtLoginError>,
) -> (r: Result<LaunchAtLoginRegistration, LaunchAtLoginError>)
    ensures
        match (command, startup_approved) {
            (Err(e), _) => (r matches Err(f) && f@ == e@),
            (Ok(_), Err(e)) => (r matches Err(f) && f@ == e@),
            (Ok(c), Ok(a)) => (r matches Ok(reg) && reg.command == c && reg.startup_approved == a),
        },
{
    let command = match command {
        Ok(c) => c,
        Err(e) => return Err(e),
    };
    let startup_approved = match startup_approved {
        Ok(a) => a,
        Err(e) => return Err(e),
    };
    Ok(LaunchAtLoginRegistration { command, startup_approved })
}

/// The changes that put both values back as a snapshot recorded them:
/// written where the snapshot holds one, removed where it holds none.
pub open spec fn restore_changes(
    command: Option<Seq<char>>,
    approved: Option<Seq<u8>>,
) -> Seq<RegistryChangeView> {
    let first = match command {
        Some(c) => RegistryChangeView::SetString { key: StartupKey::Run, text: c },
        None => RegistryChangeView::Delete { key: StartupKey::Run },
    };
    let second = match approved {
        Some(a) => RegistryChangeView::SetBinary { key: StartupKey::StartupApproved, bytes: a },
        None => RegistryChangeView::Delete { key: StartupKey::StartupApproved },
    };
    seq![first, second]
}

pub open spec fn opt_bytes(o: Option<Vec<u8>>) -> Option<Seq<u8>> {
    match o {
        Some(v) => Some(v@),
        None => None,
    }
}

fn copy_bytes(v: &Vec<u8>) -> (r: Vec<u8>)
    ensures
        r@ == v@,
{
    let mut out: Vec<u8> = Vec::new();
    let mut i: usize = 0;
    while i < v.len()
        invariant
            i <= v@.len(),
            out@ == v@.subrange(0, i as int),
        decreases v@.len() - i,
    {
        out.push(v[i]);
        assert(out@ =~= v@.subrange(0, i + 1));
        i = i + 1;
    }
    assert(v@.subrange(0, v@.len() as int) =~= v@);
    out
}

/// The changes, in order, that restore a snapshot taken by
/// `snapshot_launch_at_login`; the first one that fails ends the operation.
pub fn restore_launch_at_login(registration: &LaunchAtLoginRegistration) -> (r: Vec<RegistryChange>)
    ensures
        changes_view(r@) == restore_changes(
            opt_text(registration.command),
            opt_bytes(registration.startup_approved),
        ),
{
    let mut changes: Vec<RegistryChange> = Vec::new();
    match &registration.command {
        Some(command) => changes.push(
            RegistryChange::SetString { key: StartupKey::Run, text: command.clone() },
        ),
        None => changes.push(RegistryChange::Delete { key: StartupKey::Run }),
    }
    match &registration.startup_approved {
        Some(value) => changes.push(
            RegistryChange::SetBinary { key: StartupKey::StartupApproved, bytes: copy_bytes(value) },
        ),
        None => changes.push(RegistryChange::Delete { key: StartupKey::StartupApproved }),
    }
    assert(changes_view(changes@) =~= restore_changes(
        opt_text(registration.command),
        opt_bytes(registration.startup_approved),
    ));
    changes
}

/// A value this application owns in the startup keys, as the registry
/// holds it.
pub enum RegistryValue {
    Text(Seq<char>),
    Binary(Seq<u8>),
}

/// The values under this application's name in the two startup keys.
pub type StartupValues = Map<StartupKey, RegistryValue>;

/// The values after one change.
pub open spec fn apply_change(values: StartupValues, c: RegistryChangeView) -> StartupValues {
    match c {
        RegistryChangeView::SetString { key, text } => values.insert(key, RegistryValue::Text(text)),
        RegistryChangeView::SetBinary { key, bytes } => values.insert(key, RegistryValue::Binary(bytes)),
        RegistryChangeView::Delete { key } => values.remove(key),
    }
}

/// The values after a list of changes, made in order.
pub open spec fn apply_changes(values: StartupValues, cs: Seq<RegistryChangeView>) -> StartupValues
    decreases cs.len(),
{
    if cs.len() == 0 {
        values
    } else {
        apply_change(apply_changes(values, cs.drop_last()), cs.last())
    }
}

/// What a snapshot reads of the `Run` value: its text, if there is one.
pub open spec fn run_command_of(values: StartupValues) -> Option<Seq<char>> {
    if values.contains_key(StartupKey::Run) {
        match values[StartupKey::Run] {
            RegistryValue::Text(t) => Some(t),
            RegistryValue::Binary(_) => None,
        }
    } else {
        None
    }
}

/// What a snapshot reads of the approval value: its bytes, if there are any.
pub open spec fn approval_of(values: StartupValues) -> Option<Seq<u8>> {
    if values.contains_key(StartupKey::StartupApproved) {
        match values[StartupKey::StartupApproved] {
            RegistryValue::Binary(b) => Some(b),
            RegistryValue::Text(_) => None,
        }
    } else {
        None
    }
}

/// The `Run` value is text and the approval value is binary, as a snapshot
/// can read them (a value of another type fails the read).
pub open spec fn values_readable(values: StartupValues) -> bool {
    &&& values.contains_key(StartupKey::Run) ==> values[StartupKey::Run] is Text
    &&& values.contains_key(StartupKey::StartupApproved) ==> values[StartupKey::StartupApproved] is Binary
}

/// `x` put in front of a parse result.
pub open spec fn prefixed(x: Seq<char>, o: Option<Seq<char>>) -> Option<Seq<char>> {
    match o {
        Some(y) => Some(x + y),
        None => None,
    }
}

/// How Windows reads the rest of a quoted command-line argument from
/// position `i`, `pending` backslashes having been read: `2n` backslashes
/// before a quote stand for `n` and the quote closes the argument (here it
/// must be the last character); `2n + 1` backslashes before a quote stand
/// for `n` and a literal quote; backslashes before any other character
/// stand for themselves. `None` when the argument is not closed at the end.
pub open spec fn read_quoted(t: Seq<char>, i: int, pending: nat) -> Option<Seq<char>>
    decreases t.len() - i,
{
    if i < 0 || i >= t.len() {
        None
    } else if t[i] == '\\' {
        read_quoted(t, i + 1, pending + 1)
    } else if t[i] == '"' {
        if pending % 2 == 1 {
            prefixed(backslashes(pending / 2) + seq!['"'], read_quoted(t, i + 1, 0))
        } else if i == t.len() - 1 {
            Some(backslashes(pending / 2))
        } else {
            None
        }
    } else {
        prefixed(backslashes(pending) + seq![t[i]], read_quoted(t, i + 1, 0))
    }
}

/// The argument Windows reads from a command line that is one quoted
/// argument.
pub open spec fn read_argument(t: Seq<char>) -> Option<Seq<char>> {
    if t.len() > 0 && t[0] == '"' {
        read_quoted(t, 1, 0)
    } else {
        None
    }
}

/// `ERROR_FILE_NOT_FOUND`: the value is not there.
pub const ERROR_FILE_NOT_FOUND: u32 = 2;

/// `ERROR_MORE_DATA`: the buffer was too small for the value.
pub const ERROR_MORE_DATA: u32 = 234;

/// What to do after a `RegGetValueW` call that reads a startup value.
#[derive(PartialEq, Eq, Structural, Clone, Copy, Debug)]
pub enum RegistryReadStep {
    /// The value is not there.
    Absent,
    /// The buffer holds the value.
    Read,
    /// Read again into a buffer of `len` units (UTF-16 units for text,
    /// bytes for binary values).
    Grow { len: usize },
    /// The read failed with this status.
    Fail { status: u32 },
}

/// After the call that only asks for the size: a missing value is absent,
/// another failure fails, and otherwise the first buffer holds the reported
/// number of bytes, as UTF-16 units with room for a terminating zero for
/// text.
pub open spec fn size_step(status: u32, reported: u32, text: bool) -> RegistryReadStep {
    if status == ERROR_FILE_NOT_FOUND {
        RegistryReadStep::Absent
    } else if status != 0 {
        RegistryReadStep::Fail { status }
    } else if text {
        RegistryReadStep::Grow { len: ((reported + 1) / 2 + 1) as usize }
    } else {
        RegistryReadStep::Grow { len: reported as usize }
    }
}

pub fn registry_size_step(status: u32, reported: u32, text: bool) -> (r: RegistryReadStep)
    ensures
        r == size_step(status, reported, text),
{
    if status == ERROR_FILE_NOT_FOUND {
        RegistryReadStep::Absent
    } else if status != 0 {
        RegistryReadStep::Fail { status }
    } else if text {
        RegistryReadStep::Grow { len: (reported / 2 + reported % 2) as usize + 1 }
    } else {
        RegistryReadStep::Grow { len: reported as usize }
    }
}

/// After a call that reads into a buffer of `buffer_len` units: a missing
/// value is absent; a value that grew in between asks for a buffer of the
/// reported size or twice the current one, whichever is larger (plus a
/// unit for the terminating zero of text); another failure fails; and
/// otherwise the value is read.
pub open spec fn read_step(status: u32, reported: u32, buffer_len: usize, text: bool) -> RegistryReadStep {
    if status == ERROR_MORE_DATA {
        if text {
            let need = (reported + 1) / 2;
            RegistryReadStep::Grow {
                len: ((if need >= 2 * buffer_len { need } else { 2 * buffer_len }) + 1) as usize,
            }
        } else {
            RegistryReadStep::Grow {
                len: (if reported >= 2 * buffer_len { reported as int } else { 2 * buffer_len }) as usize,
            }
        }
    } else if status == ERROR_FILE_NOT_FOUND {
        RegistryReadStep::Absent
    } else if status != 0 {
        RegistryReadStep::Fail { status }
    } else {
        RegistryReadStep::Read
    }
}

pub fn registry_read_step(status: u32, reported: u32, buffer_len: usize, text: bool) -> (r:
    RegistryReadStep)
    requires
        buffer_len <= usize::MAX / 4,
    ensures
        r == read_step(status, reported, buffer_len, text),
{
    if status == ERROR_MORE_DATA {
        let doubled = 2 * buffer_len;
        if text {
            let need = (reported / 2 + reported % 2) as usize;
            RegistryReadStep::Grow { len: (if need >= doubled { need } else { doubled }) + 1 }
        } else {
            let need = reported as usize;
            RegistryReadStep::Grow { len: if need >= doubled { need } else { doubled } }
        }
    } else if status == ERROR_FILE_NOT_FOUND {
        RegistryReadStep::Absent
    } else if status != 0 {
        RegistryReadStep::Fail { status }
    } else {
        RegistryReadStep::Read
    }
}

/// The size in bytes to hand `RegGetValueW` for a buffer of `len` units, or
/// the error when it does not fit the call's 32-bit size.
pub fn registry_buffer_bytes(len: usize, text: bool) -> (r: Result<u32, LaunchAtLoginError>)
    requires
        2 * len <= usize::MAX,
    ensures
        match r {
            Ok(n) => n == (if text { 2 * len } else { len as int }),
            Err(e) => (if text { 2 * len } else { len as int }) > u32::MAX && e@ == (if text {
                LaunchAtLoginErrorView::Registry("startup registration value is too large"@)
            } else {
                LaunchAtLoginErrorView::Registry("startup approval value is too large"@)
            }),
        },
{
    let bytes = if text { 2 * len } else { len };
    if bytes > u32::MAX as usize {
        if text {
            Err(LaunchAtLoginError::Registry("startup registration value is too large".to_owned()))
        } else {
            Err(LaunchAtLoginError::Registry("startup approval value is too large".to_owned()))
        }
    } else {
        Ok(bytes as u32)
    }
}

/// The text a read `Run` value holds: its UTF-16 units up to the first zero
/// (or all of them), which must be well formed.
pub fn decode_registry_string(units: &[u16]) -> (r: Result<String, LaunchAtLoginError>)
    ensures
        utf16_well_formed(units@.subrange(0, zero_from(units@, 0))) ==> (r matches Ok(s) && s@
            == utf16_decode_lossy(units@.subrange(0, zero_from(units@, 0)))),
        !utf16_well_formed(units@.subrange(0, zero_from(units@, 0))) ==> (r matches Err(
            LaunchAtLoginError::Registry(m),
        ) && m@.len() >= "startup registration has invalid UTF-16: "@.len() && m@.subrange(
            0,
            "startup registration has invalid UTF-16: "@.len() as int,
        ) == "startup registration has invalid UTF-16: "@),
{
    proof {
        lemma_zero_from_bounds(units@, 0);
    }
    let end = zero_from_exec(units, 0);
    let head = slice_units(units, 0, end);
    match string_from_utf16(head.as_slice()) {
        Ok(s) => Ok(s),
        Err(detail) => {
            let mut m = "startup registration has invalid UTF-16: ".to_owned();
            let ghost prefix = m@;
            m.append(detail.as_str());
            assert(m@.subrange(0, prefix.len() as int) =~= prefix);
            Err(LaunchAtLoginError::Registry(m))
        },
    }
}

/// A read binary value: the buffer cut to the number of bytes Windows
/// reported (a larger report leaves it whole).
pub fn registry_binary_value(buffer: Vec<u8>, reported: u32) -> (r: Vec<u8>)
    ensures
        r@ == if (reported as int) < buffer@.len() {
            buffer@.subrange(0, reported as int)
        } else {
            buffer@
        },
{
    let mut buffer = buffer;
    buffer.truncate(reported as usize);
    buffer
}

} // verus!
