use crate::logger::LogLevel;
use vstd::prelude::*;

verus! {

/// How the supervisor is configured.
pub struct Opt {
    /// Command to run.
    pub command: String,
    /// Space separated hosts or addresses to check; their order does not matter.
    pub hosts: String,
    /// Port to connect to when a host carries none.
    pub port: u16,
    /// Seconds that a connection may take.
    pub timeout: u32,
    /// Check with the system's `ping` rather than by connecting.
    pub use_ping: bool,
    /// Options for `ping`.
    pub ping_opt: String,
    /// Run the command on start, and again whenever it dies.
    pub keep_alive: bool,
    /// Seconds before the first check after the command starts.
    pub wait_after_exec: usize,
    /// Seconds between two checks.
    pub network_every: usize,
    /// Name of the signal that ends the command.
    pub signal: String,
    /// Errors in a row that stop the supervisor; 0 for no limit.
    pub max_errors: usize,
    /// Verbosity: 0 shows errors, up to 3 for debug messages.
    pub verbose: u32,
    /// Hide the command's output, and show one level less.
    pub quiet: bool,
    /// Shell command that checks the network in place of the probes.
    pub check_cmd: Option<String>,
}

impl Opt {
    /// The level of the messages that are shown: one more than `verbose`,
    /// unless the supervisor is quiet.
    pub fn log_level(&self) -> (r: LogLevel)
        ensures
            r == LogLevel::spec_from_rank(
                if self.quiet {
                    self.verbose
                } else {
                    self.verbose.saturating_add(1)
                },
            ),
    {
        if self.quiet {
            LogLevel::from(self.verbose)
        } else {
            LogLevel::from(self.verbose.saturating_add(1))
        }
    }
}

/// Whether `c` is white space in Unicode's sense, as `char::is_whitespace` has it.
pub open spec fn is_white_space(c: char) -> bool {
    ||| '\u{9}' <= c <= '\u{d}'
    ||| c == ' '
    ||| c == '\u{85}'
    ||| c == '\u{a0}'
    ||| c == '\u{1680}'
    ||| '\u{2000}' <= c <= '\u{200a}'
    ||| c == '\u{2028}'
    ||| c == '\u{2029}'
    ||| c == '\u{202f}'
    ||| c == '\u{205f}'
    ||| c == '\u{3000}'
}

/// Text without its leading white space.
pub open spec fn trim_start(s: Seq<char>) -> Seq<char>
    decreases s.len(),
{
    if s.len() > 0 && is_white_space(s[0]) {
        trim_start(s.drop_first())
    } else {
        s
    }
}

/// Text without its trailing white space.
pub open spec fn trim_end(s: Seq<char>) -> Seq<char>
    decreases s.len(),
{
    if s.len() > 0 && is_white_space(s.last()) {
        trim_end(s.drop_last())
    } else {
        s
    }
}

/// Text without its leading and trailing white space.
pub open spec fn trimmed(s: Seq<char>) -> Seq<char> {
    trim_end(trim_start(s))
}

/// Relies on `str::trim`: the text with leading and trailing white space
/// (`char::is_whitespace`) removed.
#[verifier::external_body]
fn trim<'a>(s: &'a str) -> (r: &'a str)
    ensures
        r@ == trimmed(s@),
{
    s.trim()
}

/// Scans `s` from the left: the words that a space has ended, and the word
/// read since the last space.
pub open spec fn scan_words(s: Seq<char>) -> (Seq<Seq<char>>, Seq<char>)
    decreases s.len(),
{
    if s.len() == 0 {
        (seq![], seq![])
    } else {
        let (done, word) = scan_words(s.drop_last());
        if s.last() == ' ' {
            (if word.len() > 0 {
                done.push(word)
            } else {
                done
            }, seq![])
        } else {
            (done, word.push(s.last()))
        }
    }
}

/// The words of `s` between single spaces, leaving out the empty ones.
pub open spec fn words(s: Seq<char>) -> Seq<Seq<char>> {
    let (done, word) = scan_words(s);
    if word.len() > 0 {
        done.push(word)
    } else {
        done
    }
}

/// Splits `s` at each space, leaving out empty pieces.
pub fn split_hosts(s: &str) -> (r: Vec<String>)
    ensures
        r@.map_values(|h: String| h@) == words(s@),
{
    let n = s.unicode_len();
    let mut done: Vec<String> = Vec::new();
    let mut start: usize = 0;
    let mut i: usize = 0;
    while i < n
        invariant
            n == s@.len(),
            start <= i <= n,
            scan_words(s@.subrange(0, i as int)) == (
                done@.map_values(|h: String| h@),
                s@.subrange(start as int, i as int),
            ),
        decreases n - i,
    {
        let ghost prefix = s@.subrange(0, i + 1);
        assert(prefix.drop_last() =~= s@.subrange(0, i as int));
        let c = s.get_char(i);
        if c == ' ' {
            if start < i {
                let word = String::from_str(s.substring_char(start, i));
                let ghost before = done@;
                done.push(word);
                assert(done@.map_values(|h: String| h@) =~= before.map_values(|h: String| h@).push(
                    word@,
                ));
            }
            start = i + 1;
            assert(s@.subrange(start as int, i + 1) =~= Seq::<char>::empty());
        } else {
            assert(s@.subrange(start as int, i + 1) =~= s@.subrange(start as int, i as int).push(c));
        }
        i = i + 1;
    }
    assert(s@.subrange(0, n as int) =~= s@);
    if start < n {
        let word = String::from_str(s.substring_char(start, n));
        let ghost before = done@;
        done.push(word);
        assert(done@.map_values(|h: String| h@) =~= before.map_values(|h: String| h@).push(word@));
    }
    done
}

/// The hosts listed in `hosts`: the words of the trimmed text.
pub fn host_list(hosts: &str) -> (r: Vec<String>)
    ensures
        r@.map_values(|h: String| h@) == words(trimmed(hosts@)),
        hosts@.len() == 0 ==> r@.len() == 0,
{
    let r = split_hosts(trim(hosts));
    proof {
        if hosts@.len() == 0 {
            assert(trimmed(hosts@) =~= Seq::<char>::empty());
            assert(words(trimmed(hosts@)) =~= Seq::<Seq<char>>::empty());
            assert(r@.map_values(|h: String| h@).len() == r@.len());
        }
    }
    r
}

} // verus!
