//! Which reader an input file needs, and where the results of each file of
//! an input directory go.
use vstd::prelude::*;
use vstd::string::{StrSliceExecFns, StringExecFns};

verus! {

/// `s` ends with `suffix`.
pub open spec fn has_suffix(s: Seq<char>, suffix: Seq<char>) -> bool {
    &&& suffix.len() <= s.len()
    &&& s.subrange(s.len() - suffix.len(), s.len() as int) == suffix
}

/// The last component of `path` has the extension `txt`: it ends in `.txt`
/// after at least one other character.
pub open spec fn has_txt_extension(path: Seq<char>) -> bool {
    &&& has_suffix(path, ".txt"@)
    &&& path.len() >= 5
    &&& path[path.len() - 5] != '/'
}

/// Whether `s` ends with `suffix`.
pub fn ends_with(s: &str, suffix: &str) -> (r: bool)
    ensures
        r == has_suffix(s@, suffix@),
{
    let n = s.unicode_len();
    let m = suffix.unicode_len();
    if m > n {
        return false;
    }
    let mut k: usize = 0;
    while k < m
        invariant
            n == s@.len(),
            m == suffix@.len(),
            m <= n,
            k <= m,
            forall|j: int| 0 <= j < k ==> s@[n - m + j] == suffix@[j],
        decreases m - k,
    {
        if s.get_char(n - m + k) != suffix.get_char(k) {
            proof {
                assert(s@.subrange(n - m, n as int)[k as int] == s@[n - m + k]);
            }
            return false;
        }
        k = k + 1;
    }
    assert(s@.subrange(n - m, n as int) =~= suffix@);
    true
}

/// How the jobs of an input file are read.
#[derive(Debug, PartialEq, Eq, Structural)]
pub enum InputFormat {
    /// One job per line, no multi-line jobs.
    Lines,
    /// One job per delimiter-separated record.
    Records,
}

/// A `.txt` file is read line by line; anything else as records.
pub fn input_format(path: &str) -> (r: InputFormat)
    ensures
        r == (if has_txt_extension(path@) {
            InputFormat::Lines
        } else {
            InputFormat::Records
        }),
{
    proof {
        reveal_strlit(".txt");
    }
    let n = path.unicode_len();
    if ends_with(path, ".txt") && n >= 5 && path.get_char(n - 5) != '/' {
        InputFormat::Lines
    } else {
        InputFormat::Records
    }
}

/// Where one file of an input directory is read and its results written.
#[derive(Debug)]
pub struct FileTargets {
    pub input: String,
    pub output: String,
    pub log: String,
}

/// The targets of the directory entry `entry`, which is converted only if
/// its name ends in `.csv`: the input `<input_dir>/<entry>`, the results
/// `<output_dir>/result_<entry>` and the log `<log_dir>/<entry>.log`.
pub fn dir_targets(input_dir: &str, output_dir: &str, log_dir: &str, entry: &str) -> (r: Option<
    FileTargets,
>)
    ensures
        (r is Some) <==> has_suffix(entry@, ".csv"@),
        r matches Some(t) ==> {
            &&& t.input@ == input_dir@ + "/"@ + entry@
            &&& t.output@ == output_dir@ + "/result_"@ + entry@
            &&& t.log@ == log_dir@ + "/"@ + entry@ + ".log"@
        },
{
    if !ends_with(entry, ".csv") {
        return None;
    }
    let mut input = String::from_str(input_dir);
    input.append("/");
    input.append(entry);
    let mut output = String::from_str(output_dir);
    output.append("/result_");
    output.append(entry);
    let mut log = String::from_str(log_dir);
    log.append("/");
    log.append(entry);
    log.append(".log");
    Some(FileTargets { input, output, log })
}

} // verus!
