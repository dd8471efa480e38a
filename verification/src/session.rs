//! Session-level decisions: the logger registration rule and the small pure
//! computations behind environment setup.

use vstd::prelude::*;

verus! {

/// The filter levels a logger can be limited to, from silent to most
/// verbose.
#[derive(Debug, Clone, Copy, PartialEq, Eq, Structural)]
pub enum LevelFilter {
    Off,
    Error,
    Warn,
    Info,
    Debug,
    Trace,
}

/// Returned when a logger is already installed.
#[derive(Debug, Clone, Copy, PartialEq, Eq, Structural)]
pub struct SetLoggerError {
    pub already_set: bool,
}

/// The global logger registry as the library models it: whether a logger is
/// installed and the level it is limited to.
#[derive(Debug, Clone, Copy, PartialEq, Eq, Structural)]
pub struct LoggerRegistry {
    pub installed: bool,
    pub max_level: LevelFilter,
}

/// Installs the logger at the given filter level.  Registration succeeds
/// exactly once: a second call fails and changes nothing, as a global
/// logger registry behaves.
pub fn setup_logs_by_filter_level(registry: &mut LoggerRegistry, log_level: LevelFilter) -> (r:
    Result<(), SetLoggerError>)
    ensures
        old(registry).installed ==> r is Err && *final(registry) == *old(registry),
        !old(registry).installed ==> r is Ok,
        !old(registry).installed ==> final(registry).installed,
        !old(registry).installed ==> final(registry).max_level == log_level,
{
    if registry.installed {
        Err(SetLoggerError { already_set: true })
    } else {
        registry.installed = true;
        registry.max_level = log_level;
        Ok(())
    }
}

/// The numeric rank of a filter level; a message passes when its level's
/// rank is at most the filter's.
pub open spec fn level_rank(l: LevelFilter) -> int {
    match l {
        LevelFilter::Off => 0,
        LevelFilter::Error => 1,
        LevelFilter::Warn => 2,
        LevelFilter::Info => 3,
        LevelFilter::Debug => 4,
        LevelFilter::Trace => 5,
    }
}

/// Whether a message at `msg` passes a registry limited to `max`.
pub fn level_enabled(msg: LevelFilter, max: LevelFilter) -> (r: bool)
    ensures
        r == (1 <= level_rank(msg) <= level_rank(max)),
{
    let m: u8 = match msg {
        LevelFilter::Off => 0,
        LevelFilter::Error => 1,
        LevelFilter::Warn => 2,
        LevelFilter::Info => 3,
        LevelFilter::Debug => 4,
        LevelFilter::Trace => 5,
    };
    let x: u8 = match max {
        LevelFilter::Off => 0,
        LevelFilter::Error => 1,
        LevelFilter::Warn => 2,
        LevelFilter::Info => 3,
        LevelFilter::Debug => 4,
        LevelFilter::Trace => 5,
    };
    1 <= m && m <= x
}

/// How many `=` bytes a string holds.
pub open spec fn eq_count(s: Seq<u8>) -> int
    decreases s.len(),
{
    if s.len() == 0 {
        0
    } else {
        eq_count(s.drop_last()) + if s.last() == 0x3d {
            1int
        } else {
            0int
        }
    }
}

/// Splits one `KEY=VALUE` byte string at its `=` sign.  It is accepted
/// exactly when it has one `=`, so that key and value are unambiguous; the
/// returned pair concatenates back to the input.
pub fn split_env_pair(s: &[u8]) -> (r: Option<(Vec<u8>, Vec<u8>)>)
    ensures
        r is Some <==> eq_count(s@) == 1,
        r matches Some(kv) ==> {
            &&& kv.0@ + seq![0x3du8] + kv.1@ == s@
            &&& forall|j: int| 0 <= j < kv.0@.len() ==> kv.0@[j] != 0x3d
            &&& forall|j: int| 0 <= j < kv.1@.len() ==> kv.1@[j] != 0x3d
        },
{
    let n = s.len();
    let mut eq_at: usize = 0;
    let mut count: usize = 0;
    let mut i: usize = 0;
    while i < n
        invariant
            i <= n,
            n == s@.len(),
            count <= i,
            count as int == eq_count(s@.take(i as int)),
            count > 0 ==> eq_at < i && s@[eq_at as int] == 0x3d,
            count == 0 ==> forall|j: int| 0 <= j < i ==> s@[j] != 0x3d,
            count == 1 ==> forall|j: int| 0 <= j < i && s@[j] == 0x3d ==> j == eq_at as int,
        decreases n - i,
    {
        proof {
            assert(s@.take(i + 1).drop_last() =~= s@.take(i as int));
            assert(s@.take(i + 1).last() == s@[i as int]);
        }
        if s[i] == 0x3d {
            if count == 0 {
                eq_at = i;
            }
            count = count + 1;
        }
        i += 1;
    }
    proof {
        assert(s@.take(n as int) =~= s@);
    }
    if count != 1 {
        None
    } else {
        let mut k: Vec<u8> = Vec::new();
        let mut j: usize = 0;
        while j < eq_at
            invariant
                j <= eq_at,
                eq_at < n,
                n == s@.len(),
                k@ == s@.take(j as int),
            decreases eq_at - j,
        {
            k.push(s[j]);
            proof {
                assert(k@ =~= s@.take(j + 1));
            }
            j += 1;
        }
        let mut v: Vec<u8> = Vec::new();
        let mut j2: usize = eq_at + 1;
        while j2 < n
            invariant
                eq_at < j2 <= n,
                n == s@.len(),
                v@ == s@.subrange(eq_at as int + 1, j2 as int),
            decreases n - j2,
        {
            v.push(s[j2]);
            proof {
                assert(v@ =~= s@.subrange(eq_at as int + 1, j2 + 1));
            }
            j2 += 1;
        }
        proof {
            assert(k@ + seq![0x3du8] + v@ =~= s@);
            assert(forall|j3: int| 0 <= j3 < k@.len() ==> #[trigger] k@[j3] != 0x3d);
            assert(forall|j3: int| 0 <= j3 < v@.len() ==> #[trigger] v@[j3] != 0x3d);
        }
        Some((k, v))
    }
}

/// The value the `TERM` variable is given: the terminal's own terminfo entry
/// when the system has one, a widely available fallback otherwise.
pub fn terminfo_name(has_own_entry: bool) -> (r: &'static str)
    ensures
        has_own_entry ==> r@ == "rio"@,
        !has_own_entry ==> r@ == "xterm-256color"@,
{
    if has_own_entry {
        "rio"
    } else {
        "xterm-256color"
    }
}


/// A byte with an ASCII capital folded to its small letter.
pub open spec fn ascii_lower(b: u8) -> u8 {
    if 0x41 <= b <= 0x5a {
        (b + 0x20) as u8
    } else {
        b
    }
}

/// The lowercase name of each filter level.
pub open spec fn level_name(l: LevelFilter) -> Seq<u8> {
    match l {
        LevelFilter::Off => seq![0x6fu8, 0x66u8, 0x66u8],
        LevelFilter::Error => seq![0x65u8, 0x72u8, 0x72u8, 0x6fu8, 0x72u8],
        LevelFilter::Warn => seq![0x77u8, 0x61u8, 0x72u8, 0x6eu8],
        LevelFilter::Info => seq![0x69u8, 0x6eu8, 0x66u8, 0x6fu8],
        LevelFilter::Debug => seq![0x64u8, 0x65u8, 0x62u8, 0x75u8, 0x67u8],
        LevelFilter::Trace => seq![0x74u8, 0x72u8, 0x61u8, 0x63u8, 0x65u8],
    }
}

/// Compares a byte string, case-folded, against a level's name.
fn name_matches(s: &[u8], l: LevelFilter) -> (r: bool)
    ensures
        r == (s@.map_values(|b: u8| ascii_lower(b)) == level_name(l)),
{
    let name: [u8; 5] = match l {
        LevelFilter::Off => [0x6f, 0x66, 0x66, 0, 0],
        LevelFilter::Error => [0x65, 0x72, 0x72, 0x6f, 0x72],
        LevelFilter::Warn => [0x77, 0x61, 0x72, 0x6e, 0],
        LevelFilter::Info => [0x69, 0x6e, 0x66, 0x6f, 0],
        LevelFilter::Debug => [0x64, 0x65, 0x62, 0x75, 0x67],
        LevelFilter::Trace => [0x74, 0x72, 0x61, 0x63, 0x65],
    };
    let len: usize = match l {
        LevelFilter::Off => 3,
        LevelFilter::Error => 5,
        LevelFilter::Warn => 4,
        LevelFilter::Info => 4,
        LevelFilter::Debug => 5,
        LevelFilter::Trace => 5,
    };
    proof {
        assert(level_name(l) =~= name@.take(len as int));
    }
    if s.len() != len {
        proof {
            assert(s@.map_values(|b: u8| ascii_lower(b)).len() == s@.len());
        }
        return false;
    }
    let mut i: usize = 0;
    while i < len
        invariant
            i <= len,
            len == level_name(l).len(),
            s@.len() == len,
            level_name(l) == name@.take(len as int),
            forall|j: int| 0 <= j < i ==> ascii_lower(s@[j]) == level_name(l)[j],
        decreases len - i,
    {
        let b = s[i];
        let folded: u8 = if 0x41 <= b && b <= 0x5a {
            b + 0x20
        } else {
            b
        };
        if folded != name[i] {
            proof {
                assert(s@.map_values(|b2: u8| ascii_lower(b2))[i as int] == ascii_lower(s@[i as int]));
                assert(s@.map_values(|b2: u8| ascii_lower(b2)) != level_name(l));
            }
            return false;
        }
        i += 1;
    }
    proof {
        assert(s@.map_values(|b2: u8| ascii_lower(b2)) =~= level_name(l));
    }
    true
}

/// Parses a configured log-level name, ignoring ASCII case: the level whose
/// name it is, or nothing for any other string.
pub fn level_filter_from_bytes(s: &[u8]) -> (r: Option<LevelFilter>)
    ensures
        ({
            let folded = s@.map_values(|b: u8| ascii_lower(b));
            match r {
                Option::Some(l) => folded == level_name(l),
                Option::None => forall|l: LevelFilter| folded != level_name(l),
            }
        }),
{
    if name_matches(s, LevelFilter::Off) {
        Some(LevelFilter::Off)
    } else if name_matches(s, LevelFilter::Error) {
        Some(LevelFilter::Error)
    } else if name_matches(s, LevelFilter::Warn) {
        Some(LevelFilter::Warn)
    } else if name_matches(s, LevelFilter::Info) {
        Some(LevelFilter::Info)
    } else if name_matches(s, LevelFilter::Debug) {
        Some(LevelFilter::Debug)
    } else if name_matches(s, LevelFilter::Trace) {
        Some(LevelFilter::Trace)
    } else {
        proof {
            assert(forall|l: LevelFilter|
                s@.map_values(|b: u8| ascii_lower(b)) != level_name(l)) by {
                assert forall|l: LevelFilter|
                    s@.map_values(|b: u8| ascii_lower(b)) != level_name(l) by {
                    match l {
                        LevelFilter::Off => {},
                        LevelFilter::Error => {},
                        LevelFilter::Warn => {},
                        LevelFilter::Info => {},
                        LevelFilter::Debug => {},
                        LevelFilter::Trace => {},
                    }
                }
            }
        }
        None
    }
}

} // verus!
