//! Decisions of the rotating file logger: file names, which directory entries
//! are log files, when to rotate, and the file operations a rotation takes.
use std::path::PathBuf;
use vstd::prelude::*;

use crate::text::{decimal, decimal_text, push_char};

verus! {

#[verifier::external_type_specification]
#[verifier::external_body]
pub struct ExPathBuf(PathBuf);

/// Size beyond which the live log file is rotated (about 5 MB).
pub const MAX_FILE_SIZE: u64 = 1_000_000 * 5;

/// How many log files are kept, the live one included.
pub const MAX_FILES: u64 = 3;

/// Name shared by all log files.
pub const LOG_PREFIX: &'static str = "ample";

/// The name of log file `id`: `{prefix}.log` for the live file, `{prefix}-{id}.log` otherwise.
pub open spec fn log_name(prefix: Seq<char>, id: nat) -> Seq<char> {
    if id == 0 {
        prefix + ".log"@
    } else {
        prefix + seq!['-'] + decimal(id) + ".log"@
    }
}

/// Names used while log files are being renumbered.
pub open spec fn temp_prefix(prefix: Seq<char>) -> Seq<char> {
    "temp-"@ + prefix
}

/// The pattern of log file names under `prefix`: the prefix, an optional
/// `-`, a run of digits (the group), then any character and `log`.
pub open spec fn log_name_pattern(prefix: Seq<char>) -> Seq<char> {
    prefix + "-?(\\d*).log"@
}

/// Builds the pattern that recognises log file names under `prefix`.
pub fn log_pattern(prefix: &str) -> (pattern: String)
    ensures
        pattern@ == log_name_pattern(prefix@),
{
    let mut pattern = prefix.to_owned();
    pattern.append("-?(\\d*).log");
    pattern
}

/// In `name`, the text captured by the first group of the first match of the
/// regular expression `pattern`; none if there is no match, or if `pattern`
/// is not a regular expression the regex crate accepts.
pub uninterp spec fn regex_first_group(pattern: Seq<char>, name: Seq<char>) -> Option<Seq<char>>;

/// Relies on `regex::Regex::new` and `Regex::captures`: compiles `pattern`
/// (none if it is refused) and returns what its first group captured in `name`.
#[verifier::external_body]
fn capture_first_group(pattern: &str, name: &str) -> (r: Option<String>)
    ensures
        match r {
            Some(g) => regex_first_group(pattern@, name@) == Some(g@),
            None => regex_first_group(pattern@, name@) is None,
        },
{
    let re = regex::Regex::new(pattern).ok()?;
    re.captures(name).and_then(|caps| caps.get(1)).map(|m| m.as_str().to_owned())
}

/// Whether every character is an ASCII digit.
pub open spec fn all_digits(s: Seq<char>) -> bool {
    forall|i: int| 0 <= i < s.len() ==> '0' <= #[trigger] s[i] <= '9'
}

/// The number written by ASCII digits.
pub open spec fn digits_value(s: Seq<char>) -> nat
    decreases s.len(),
{
    if s.len() == 0 {
        0
    } else {
        digits_value(s.drop_last()) * 10 + (s.last() as nat - 48) as nat
    }
}

/// The id a log file name stands for: none if the pattern does not occur,
/// zero for an empty group, else the group read as a decimal `u64`.
pub open spec fn log_id(group: Option<Seq<char>>) -> Option<u64> {
    match group {
        None => None,
        Some(d) => if d.len() == 0 {
            Some(0u64)
        } else if all_digits(d) && digits_value(d) <= u64::MAX {
            Some(digits_value(d) as u64)
        } else {
            None
        },
    }
}

/// Reads a decimal `u64` written with ASCII digits only.
pub fn parse_decimal(s: &str) -> (r: Option<u64>)
    ensures
        r == (if s@.len() > 0 && all_digits(s@) && digits_value(s@) <= u64::MAX {
            Some(digits_value(s@) as u64)
        } else {
            None::<u64>
        }),
{
    let text = s.to_owned();
    let n = text.as_str().unicode_len();
    if n == 0 {
        return None;
    }
    let mut value: u64 = 0;
    let mut i: usize = 0;
    while i < n
        invariant
            text@ == s@,
            n == s@.len(),
            i <= n,
            all_digits(s@.take(i as int)),
            value == digits_value(s@.take(i as int)),
        decreases n - i,
    {
        let c = text.as_str().get_char(i);
        assert(s@.take(i + 1).drop_last() =~= s@.take(i as int));
        if !('0' <= c && c <= '9') {
            assert(!all_digits(s@)) by {
                assert(s@[i as int] == c);
            }
            return None;
        }
        let d = (c as u32 - 48) as u64;
        if value > (u64::MAX - d) / 10 {
            proof {
                lemma_digits_value_prefix_bound(s@, i as int + 1);
            }
            assert(digits_value(s@.take(i + 1)) > u64::MAX) by (nonlinear_arith)
                requires
                    digits_value(s@.take(i + 1)) == value * 10 + d,
                    value > (u64::MAX - d) / 10,
                    d <= 9,
            ;
            return None;
        }
        assert(value * 10 + d <= u64::MAX) by (nonlinear_arith)
            requires
                value <= (u64::MAX - d) / 10,
                d <= 9,
        ;
        value = value * 10 + d;
        assert(all_digits(s@.take(i + 1))) by {
            assert forall|j: int| 0 <= j < i + 1 implies '0' <= #[trigger] s@.take(i + 1)[j]
                <= '9' by {
                if j < i {
                    assert(s@.take(i + 1)[j] == s@.take(i as int)[j]);
                }
            }
        }
        i += 1;
    }
    assert(s@.take(n as int) =~= s@);
    Some(value)
}

proof fn lemma_digits_value_monotone(s: Seq<char>, k: int)
    requires
        0 <= k <= s.len(),
    ensures
        digits_value(s.take(k)) <= digits_value(s),
    decreases s.len() - k,
{
    if k < s.len() {
        lemma_digits_value_monotone(s, k + 1);
        assert(s.take(k + 1).drop_last() =~= s.take(k));
        assert(digits_value(s.take(k)) <= digits_value(s.take(k)) * 10) by (nonlinear_arith);
    } else {
        assert(s.take(k) =~= s);
    }
}

proof fn lemma_digits_value_prefix_bound(s: Seq<char>, k: int)
    requires
        0 <= k <= s.len(),
        digits_value(s.take(k)) > u64::MAX,
    ensures
        digits_value(s) > u64::MAX,
{
    lemma_digits_value_monotone(s, k);
}

/// The id for what the name pattern captured: none without a match, zero for
/// an empty group, else the group read as a decimal `u64`.
pub fn log_id_from_group(group: Option<String>) -> (r: Option<u64>)
    ensures
        r == log_id(
            match group {
                Some(g) => Some(g@),
                None => None,
            },
        ),
{
    match group {
        None => None,
        Some(group) => {
            if group.as_str().is_empty() {
                Some(0)
            } else {
                parse_decimal(group.as_str())
            }
        },
    }
}

/// Which log file: zero for the live one, higher for older ones.
pub struct RollingLogFile {
    pub file_id: u64,
}

impl RollingLogFile {
    /// The file name of this log file under `prefix`.
    pub fn create_log_name(&self, prefix: &str) -> (name: String)
        ensures
            name@ == log_name(prefix@, self.file_id as nat),
    {
        let mut name = prefix.to_owned();
        if self.file_id != 0 {
            push_char(&mut name, '-');
            let digits = decimal_text(self.file_id);
            name.append(digits.as_str());
        }
        name.append(".log");
        name
    }
}

/// One file operation of a rotation, on names within the log directory.
pub enum LogOp {
    Rename(String, String),
    Create(String),
    Remove(String),
}

pub enum LogOpView {
    Rename(Seq<char>, Seq<char>),
    Create(Seq<char>),
    Remove(Seq<char>),
}

impl View for LogOp {
    type V = LogOpView;

    open spec fn view(&self) -> LogOpView {
        match self {
            LogOp::Rename(a, b) => LogOpView::Rename(a@, b@),
            LogOp::Create(a) => LogOpView::Create(a@),
            LogOp::Remove(a) => LogOpView::Remove(a@),
        }
    }
}

/// The largest id.
pub open spec fn max_id(ids: Seq<u64>) -> nat
    decreases ids.len(),
{
    if ids.len() == 0 {
        0
    } else {
        let m = max_id(ids.drop_last());
        if ids.last() > m {
            ids.last() as nat
        } else {
            m
        }
    }
}

/// A rotation: every log file moves to a temporary name, then to the name of
/// the next id; a fresh live file is created; and when more than `max_files`
/// files would remain, the oldest is removed.
pub open spec fn rotation_ops(prefix: Seq<char>, ids: Seq<u64>, max_files: nat) -> Seq<LogOpView> {
    to_temp_ops(prefix, ids) + from_temp_ops(prefix, ids) + seq![
        LogOpView::Create(log_name(prefix, 0)),
    ] + if ids.len() > 0 && ids.len() + 1 > max_files {
        seq![LogOpView::Remove(log_name(prefix, max_id(ids) + 1))]
    } else {
        Seq::<LogOpView>::empty()
    }
}

/// Each log file renamed to its temporary name.
pub open spec fn to_temp_ops(prefix: Seq<char>, ids: Seq<u64>) -> Seq<LogOpView> {
    Seq::new(
        ids.len(),
        |i: int|
            LogOpView::Rename(
                log_name(prefix, ids[i] as nat),
                log_name(temp_prefix(prefix), ids[i] as nat),
            ),
    )
}

/// Each temporary name renamed to the log name of the next id.
pub open spec fn from_temp_ops(prefix: Seq<char>, ids: Seq<u64>) -> Seq<LogOpView> {
    Seq::new(
        ids.len(),
        |i: int|
            LogOpView::Rename(
                log_name(temp_prefix(prefix), ids[i] as nat),
                log_name(prefix, ids[i] as nat + 1),
            ),
    )
}

/// A log file that keeps what is written in a buffer until a line ends, and
/// rotates once it grows beyond its size limit.
pub struct RollingLogger {
    log_dir: PathBuf,
    log_file_name: PathBuf,
    max_file_size: u64,
    max_files: u64,
    file_prefix: String,
    log_buf: Vec<u8>,
}

impl RollingLogger {
    pub closed spec fn max_file_size(&self) -> nat {
        self.max_file_size as nat
    }

    pub closed spec fn max_files(&self) -> nat {
        self.max_files as nat
    }

    pub closed spec fn prefix(&self) -> Seq<char> {
        self.file_prefix@
    }

    pub closed spec fn buffered(&self) -> Seq<u8> {
        self.log_buf@
    }

    pub closed spec fn dir(&self) -> PathBuf {
        self.log_dir
    }

    pub closed spec fn file_name(&self) -> PathBuf {
        self.log_file_name
    }

    /// A logger writing `file_name` in `log_dir`, with the given limits.
    pub fn new(log_dir: PathBuf, file_name: PathBuf, max_file_size: u64, max_files: u64) -> (r:
        RollingLogger)
        ensures
            r.dir() == log_dir,
            r.file_name() == file_name,
            r.max_file_size() == max_file_size,
            r.max_files() == max_files,
            r.prefix() == LOG_PREFIX@,
            r.buffered() == Seq::<u8>::empty(),
    {
        RollingLogger {
            log_dir,
            log_file_name: file_name,
            max_file_size,
            max_files,
            file_prefix: LOG_PREFIX.to_owned(),
            log_buf: Vec::new(),
        }
    }

    /// The directory of the log files.
    pub fn log_dir(&self) -> (r: &PathBuf)
        ensures
            *r == self.dir(),
    {
        &self.log_dir
    }

    /// The name of the live log file.
    pub fn log_file_name(&self) -> (r: &PathBuf)
        ensures
            *r == self.file_name(),
    {
        &self.log_file_name
    }

    /// Keeps `bytes` for the next flush; says whether to flush now, which is
    /// when exactly a line end was written.
    pub fn buffer(&mut self, bytes: &[u8]) -> (flush_now: bool)
        ensures
            final(self).buffered() == old(self).buffered() + bytes@,
            final(self).prefix() == old(self).prefix(),
            final(self).max_file_size() == old(self).max_file_size(),
            final(self).max_files() == old(self).max_files(),
            flush_now == (bytes@.len() == 1 && bytes@[0] == 10),
    {
        let mut buf: Vec<u8> = Vec::new();
        std::mem::swap(&mut buf, &mut self.log_buf);
        let ghost start = buf@;
        let mut i: usize = 0;
        while i < bytes.len()
            invariant
                i <= bytes@.len(),
                buf@ == start + bytes@.take(i as int),
            decreases bytes@.len() - i,
        {
            buf.push(bytes[i]);
            assert(start + bytes@.take(i + 1) =~= (start + bytes@.take(i as int)).push(bytes@[i as int]));
            i += 1;
        }
        assert(bytes@.take(i as int) =~= bytes@);
        self.log_buf = buf;
        bytes.len() == 1 && bytes[0] == 10
    }

    /// Hands out what was buffered and empties the buffer.
    pub fn take_buffer(&mut self) -> (r: Vec<u8>)
        ensures
            r@ == old(self).buffered(),
            final(self).buffered() == Seq::<u8>::empty(),
            final(self).prefix() == old(self).prefix(),
            final(self).max_file_size() == old(self).max_file_size(),
            final(self).max_files() == old(self).max_files(),
    {
        let mut r: Vec<u8> = Vec::new();
        std::mem::swap(&mut r, &mut self.log_buf);
        r
    }

    /// Whether a file of `file_len` bytes would grow beyond the limit with
    /// `pending` more.
    pub fn needs_rotation(&self, file_len: u64, pending: usize) -> (r: bool)
        ensures
            r == (file_len + pending > self.max_file_size()),
    {
        file_len > self.max_file_size || pending as u64 > self.max_file_size - file_len
    }

    /// The id of the log file a directory entry is, if it is one.
    pub fn log_file_id(&self, file_name: &str) -> (r: Option<u64>)
        ensures
            r == log_id(regex_first_group(log_name_pattern(self.prefix()), file_name@)),
    {
        let pattern = log_pattern(self.file_prefix.as_str());
        log_id_from_group(capture_first_group(pattern.as_str(), file_name))
    }

    /// The file operations that rotate the log files with the given ids.
    pub fn rotation_plan(&self, ids: &Vec<u64>) -> (ops: Vec<LogOp>)
        requires
            forall|i: int| 0 <= i < ids@.len() ==> #[trigger] ids@[i] < u64::MAX,
        ensures
            ops@.map_values(|o: LogOp| o@) == rotation_ops(
                self.prefix(),
                ids@,
                self.max_files(),
            ),
    {
        let prefix = self.file_prefix.as_str();
        let mut temp = "temp-".to_owned();
        temp.append(prefix);
        let ghost p = prefix@;
        let ghost first = to_temp_ops(p, ids@);
        let ghost second = from_temp_ops(p, ids@);
        let ghost n = ids@.len();
        let mut ops: Vec<LogOp> = Vec::new();
        let mut i: usize = 0;
        while i < ids.len()
            invariant
                p == self.prefix(),
                temp@ == temp_prefix(p),
                prefix@ == p,
                n == ids@.len(),
                i <= n,
                first == to_temp_ops(p, ids@),
                ops@.map_values(|o: LogOp| o@) == first.take(i as int),
            decreases n - i,
        {
            let file = RollingLogFile { file_id: ids[i] };
            let from = file.create_log_name(prefix);
            let to = file.create_log_name(temp.as_str());
            let ghost before = ops@.map_values(|o: LogOp| o@);
            ops.push(LogOp::Rename(from, to));
            assert(ops@.map_values(|o: LogOp| o@) =~= before.push(first[i as int]));
            assert(first.take(i + 1) =~= first.take(i as int).push(first[i as int]));
            i += 1;
        }
        assert(first.take(n as int) =~= first);
        let mut j: usize = 0;
        let mut largest: u64 = 0;
        while j < ids.len()
            invariant
                p == self.prefix(),
                temp@ == temp_prefix(p),
                prefix@ == p,
                n == ids@.len(),
                j <= n,
                forall|t: int| 0 <= t < n ==> #[trigger] ids@[t] < u64::MAX,
                largest == max_id(ids@.take(j as int)),
                second == from_temp_ops(p, ids@),
                ops@.map_values(|o: LogOp| o@) == first + second.take(j as int),
            decreases n - j,
        {
            let id = ids[j];
            let from = RollingLogFile { file_id: id }.create_log_name(temp.as_str());
            let to = RollingLogFile { file_id: id + 1 }.create_log_name(prefix);
            let ghost before = ops@.map_values(|o: LogOp| o@);
            ops.push(LogOp::Rename(from, to));
            assert(ops@.map_values(|o: LogOp| o@) =~= before.push(second[j as int]));
            assert(second.take(j + 1) =~= second.take(j as int).push(second[j as int]));
            assert(ids@.take(j + 1).drop_last() =~= ids@.take(j as int));
            if id > largest {
                largest = id;
            }
            j += 1;
        }
        assert(ids@.take(n as int) =~= ids@);
        assert(second.take(n as int) =~= second);
        let live = RollingLogFile { file_id: 0 }.create_log_name(prefix);
        ops.push(LogOp::Create(live));
        if ids.len() > 0 && ids.len() as u64 >= self.max_files {
            proof {
                lemma_max_id_member(ids@);
            }
            let oldest = RollingLogFile { file_id: largest + 1 }.create_log_name(prefix);
            ops.push(LogOp::Remove(oldest));
        }
        assert(ops@.map_values(|o: LogOp| o@) =~= rotation_ops(p, ids@, self.max_files()));
        ops
    }
}

proof fn lemma_max_id_member(ids: Seq<u64>)
    requires
        ids.len() > 0,
    ensures
        exists|i: int| 0 <= i < ids.len() && ids[i] == max_id(ids),
    decreases ids.len(),
{
    if ids.len() > 1 && ids.last() <= max_id(ids.drop_last()) {
        lemma_max_id_member(ids.drop_last());
        let i = choose|i: int| 0 <= i < ids.len() - 1 && ids.drop_last()[i] == max_id(ids.drop_last());
        assert(ids[i] == ids.drop_last()[i]);
    } else {
        if ids.len() == 1 {
            assert(max_id(ids.drop_last()) == 0);
        }
        assert(ids[ids.len() - 1] == max_id(ids));
    }
}

} // verus!
