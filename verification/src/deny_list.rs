//! Security deny-list checking for commands.
//!
//! Commands are checked against configured deny and forbidden regex
//! patterns. Shell-wrapped commands (`bash -lc "cmd1 && cmd2"`) are
//! decomposed into inner plain commands and each is checked
//! independently; a forbidden match takes precedence over a deny match.
//! Invalid regex patterns are filtered out at policy-construction time.

use vstd::prelude::*;
use vstd::string::StrSliceExecFns;
use crate::model::opt_str_view;
use crate::model::strs_view;
use crate::text::join_words;
use crate::text::spec_join_words;
use crate::text::str_eq;

verus! {

/// Result of checking a command against the security deny list.
#[derive(Debug, Clone, PartialEq, Eq)]
pub enum DenyListCheckResult {
    /// Command is allowed to proceed to the normal approval flow.
    Allowed,
    /// Command requires approval even when approvals are otherwise off.
    RequiresApproval { matched_pattern: String },
    /// Command is forbidden and should be rejected.
    Forbidden { matched_pattern: String },
}

/// Spec-level image of a `DenyListCheckResult`.
pub enum DenyListCheckResultV {
    Allowed,
    RequiresApproval { matched_pattern: Seq<char> },
    Forbidden { matched_pattern: Seq<char> },
}

impl View for DenyListCheckResult {
    type V = DenyListCheckResultV;

    open spec fn view(&self) -> DenyListCheckResultV {
        match self {
            DenyListCheckResult::Allowed => DenyListCheckResultV::Allowed,
            DenyListCheckResult::RequiresApproval { matched_pattern } => {
                DenyListCheckResultV::RequiresApproval { matched_pattern: matched_pattern@ }
            },
            DenyListCheckResult::Forbidden { matched_pattern } => {
                DenyListCheckResultV::Forbidden { matched_pattern: matched_pattern@ }
            },
        }
    }
}

/// Whether `regex::Regex::new` accepts a pattern under its default
/// configuration; a function of the pattern text alone.
pub uninterp spec fn pattern_accepted(pattern: Seq<char>) -> bool;

/// Whether the regex given by `pattern` matches anywhere in `haystack`;
/// a function of the two texts alone.
pub uninterp spec fn regex_match(pattern: Seq<char>, haystack: Seq<char>) -> bool;

#[verifier::external_type_specification]
#[verifier::external_body]
pub struct ExRegex(regex::Regex);

/// A regex kept together with the pattern text it was compiled from.
/// Only `compile_pattern` constructs values of this type, so the `regex`
/// field always is the compilation of `raw`.
#[derive(Debug)]
pub struct CompiledPattern {
    raw: String,
    regex: regex::Regex,
}

impl CompiledPattern {
    /// The pattern text this regex was compiled from.
    pub closed spec fn pattern(&self) -> Seq<char> {
        self.raw@
    }

    /// Returns the original pattern text.
    pub fn as_str(&self) -> (r: &str)
        ensures
            r@ == self.pattern(),
    {
        self.raw.as_str()
    }
}

/// Relies on `regex::Regex::new`: it returns `Ok` exactly when the
/// pattern compiles under the default configuration.
#[verifier::external_body]
fn compile_pattern(raw: &str) -> (r: Option<CompiledPattern>)
    ensures
        r is Some <==> pattern_accepted(raw@),
        r matches Some(p) ==> p.pattern() == raw@,
{
    match regex::Regex::new(raw) {
        Ok(re) => Some(CompiledPattern { raw: raw.to_owned(), regex: re }),
        Err(_) => None,
    }
}

/// Relies on `regex::Regex::is_match`: true exactly when the regex
/// matches somewhere in the haystack, a function of the pattern text and
/// the haystack alone (`CompiledPattern` guarantees that `regex` is the
/// compilation of `raw`).
#[verifier::external_body]
fn pattern_is_match(p: &CompiledPattern, haystack: &str) -> (r: bool)
    ensures
        r == regex_match(p.pattern(), haystack@),
{
    p.regex.is_match(haystack)
}

/// Raw configuration of a security policy: pattern lists as read from
/// configuration, not yet compiled.
#[derive(Debug, Clone, PartialEq, Eq)]
pub struct SecurityPolicyToml {
    pub deny_commands: Option<Vec<String>>,
    pub forbidden_commands: Option<Vec<String>>,
}

/// A security policy with compiled pattern lists.
#[derive(Debug)]
pub struct SecurityPolicy {
    pub deny_commands: Vec<CompiledPattern>,
    pub forbidden_commands: Vec<CompiledPattern>,
}

/// The pattern texts of a list of compiled patterns.
pub open spec fn pats_view(pats: Seq<CompiledPattern>) -> Seq<Seq<char>> {
    pats.map(|i: int, p: CompiledPattern| p.pattern())
}

/// The patterns of `pats` (first `k` of them) that compile, in order.
pub open spec fn spec_kept_patterns_upto(pats: Seq<Seq<char>>, k: int) -> Seq<Seq<char>>
    decreases k,
{
    if k <= 0 {
        Seq::empty()
    } else {
        let prev = spec_kept_patterns_upto(pats, k - 1);
        if pattern_accepted(pats[k - 1]) {
            prev.push(pats[k - 1])
        } else {
            prev
        }
    }
}

/// The patterns of `pats` that compile, in order.
pub open spec fn spec_kept_patterns(pats: Seq<Seq<char>>) -> Seq<Seq<char>> {
    spec_kept_patterns_upto(pats, pats.len() as int)
}

/// Compiles a pattern list, silently dropping the patterns that do not
/// compile.
fn compile_patterns(raw: &Vec<String>) -> (r: Vec<CompiledPattern>)
    ensures
        pats_view(r@) == spec_kept_patterns(strs_view(raw@)),
{
    let mut out: Vec<CompiledPattern> = Vec::new();
    let mut i: usize = 0;
    while i < raw.len()
        invariant
            i <= raw@.len(),
            pats_view(out@) == spec_kept_patterns_upto(strs_view(raw@), i as int),
        decreases raw@.len() - i,
    {
        match compile_pattern(raw[i].as_str()) {
            Some(p) => {
                out.push(p);
                proof {
                    assert(pats_view(out@) =~= spec_kept_patterns_upto(
                        strs_view(raw@),
                        i + 1 as int,
                    ));
                }
            },
            None => {
                proof {
                    assert(pats_view(out@) =~= spec_kept_patterns_upto(
                        strs_view(raw@),
                        i + 1 as int,
                    ));
                }
            },
        }
        i = i + 1;
    }
    out
}

impl SecurityPolicy {
    /// The pattern texts of the deny list.
    pub open spec fn deny_patterns(&self) -> Seq<Seq<char>> {
        pats_view(self.deny_commands@)
    }

    /// The pattern texts of the forbidden list.
    pub open spec fn forbidden_patterns(&self) -> Seq<Seq<char>> {
        pats_view(self.forbidden_commands@)
    }

    /// Compiles a policy from raw configuration. Patterns that are not
    /// valid regexes are dropped; the rest are kept in order.
    pub fn from_toml(toml: &SecurityPolicyToml) -> (r: SecurityPolicy)
        ensures
            r.deny_patterns() == spec_kept_patterns(
                match toml.deny_commands {
                    Some(v) => strs_view(v@),
                    None => Seq::empty(),
                },
            ),
            r.forbidden_patterns() == spec_kept_patterns(
                match toml.forbidden_commands {
                    Some(v) => strs_view(v@),
                    None => Seq::empty(),
                },
            ),
    {
        let deny_commands = match &toml.deny_commands {
            Some(v) => compile_patterns(v),
            None => Vec::new(),
        };
        let forbidden_commands = match &toml.forbidden_commands {
            Some(v) => compile_patterns(v),
            None => Vec::new(),
        };
        proof {
            assert(pats_view(Seq::<CompiledPattern>::empty()) =~= Seq::<Seq<char>>::empty());
            assert(spec_kept_patterns_upto(Seq::<Seq<char>>::empty(), 0) =~= Seq::<
                Seq<char>,
            >::empty());
        }
        SecurityPolicy { deny_commands, forbidden_commands }
    }
}

impl Default for SecurityPolicy {
    /// The empty policy: no deny patterns, no forbidden patterns.
    fn default() -> (r: SecurityPolicy)
        ensures
            r.deny_patterns() == Seq::<Seq<char>>::empty(),
            r.forbidden_patterns() == Seq::<Seq<char>>::empty(),
    {
        proof {
            assert(pats_view(Seq::<CompiledPattern>::empty()) =~= Seq::<Seq<char>>::empty());
        }
        SecurityPolicy { deny_commands: Vec::new(), forbidden_commands: Vec::new() }
    }
}

/// Whether a separator character ends a plain command inside a shell
/// script (`;`, `&`, `|` and newline; `&&` and `||` are two such
/// characters in a row and yield an empty segment between them).
pub open spec fn spec_is_cmd_sep(c: char) -> bool {
    c == ';' || c == '&' || c == '|' || c == '\n'
}

/// Whether a character separates words inside one plain command.
pub open spec fn spec_is_space(c: char) -> bool {
    c == ' ' || c == '\t'
}

/// Splits `s` into segments at separator characters; `i` characters are
/// already consumed, `cur` is the segment being read, `acc` the segments
/// already read.
pub open spec fn spec_segments_rec(
    s: Seq<char>,
    i: int,
    cur: Seq<char>,
    acc: Seq<Seq<char>>,
) -> Seq<Seq<char>>
    decreases s.len() - i,
{
    if i >= s.len() {
        acc.push(cur)
    } else if spec_is_cmd_sep(s[i]) {
        spec_segments_rec(s, i + 1, Seq::empty(), acc.push(cur))
    } else {
        spec_segments_rec(s, i + 1, cur.push(s[i]), acc)
    }
}

/// The segments of a script, split at separator characters.
pub open spec fn spec_segments(s: Seq<char>) -> Seq<Seq<char>> {
    spec_segments_rec(s, 0, Seq::empty(), Seq::empty())
}

/// Splits `s` into words at whitespace; empty words are dropped.
pub open spec fn spec_words_rec(
    s: Seq<char>,
    i: int,
    cur: Seq<char>,
    acc: Seq<Seq<char>>,
) -> Seq<Seq<char>>
    decreases s.len() - i,
{
    if i >= s.len() {
        if cur.len() > 0 {
            acc.push(cur)
        } else {
            acc
        }
    } else if spec_is_space(s[i]) {
        spec_words_rec(s, i + 1, Seq::empty(), if cur.len() > 0 {
            acc.push(cur)
        } else {
            acc
        })
    } else {
        spec_words_rec(s, i + 1, cur.push(s[i]), acc)
    }
}

/// The words of one plain command.
pub open spec fn spec_words(s: Seq<char>) -> Seq<Seq<char>> {
    spec_words_rec(s, 0, Seq::empty(), Seq::empty())
}

/// Splits a script into segments at command separators.
fn split_segments(script: &str) -> (segs: Vec<String>)
    ensures
        strs_view(segs@) == spec_segments(script@),
{
    let n = script.unicode_len();
    let mut segs: Vec<String> = Vec::new();
    let mut start: usize = 0;
    let mut i: usize = 0;
    proof {
        assert(script@.subrange(0, 0) =~= Seq::<char>::empty());
        assert(strs_view(segs@) =~= Seq::<Seq<char>>::empty());
    }
    while i < n
        invariant
            n == script@.len(),
            start <= i <= n,
            spec_segments(script@) == spec_segments_rec(
                script@,
                i as int,
                script@.subrange(start as int, i as int),
                strs_view(segs@),
            ),
        decreases n - i,
    {
        let c = script.get_char(i);
        if c == ';' || c == '&' || c == '|' || c == '\n' {
            let seg = script.substring_char(start, i).to_owned();
            proof {
                assert(seg@ == script@.subrange(start as int, i as int));
            }
            let ghost pre = strs_view(segs@);
            segs.push(seg);
            proof {
                assert(strs_view(segs@) =~= pre.push(seg@));
            }
            start = i + 1;
            proof {
                assert(script@.subrange(start as int, i + 1 as int) =~= Seq::<char>::empty());
            }
        } else {
            proof {
                assert(script@.subrange(start as int, i + 1 as int) =~= script@.subrange(
                    start as int,
                    i as int,
                ).push(script@[i as int]));
            }
        }
        i = i + 1;
    }
    let last = script.substring_char(start, n).to_owned();
    let ghost pre = strs_view(segs@);
    segs.push(last);
    proof {
        assert(strs_view(segs@) =~= pre.push(last@));
    }
    segs
}

/// Splits one segment into words, dropping empty words.
fn split_words(seg: &str) -> (words: Vec<String>)
    ensures
        strs_view(words@) == spec_words(seg@),
{
    let n = seg.unicode_len();
    let mut words: Vec<String> = Vec::new();
    let mut start: usize = 0;
    let mut i: usize = 0;
    proof {
        assert(seg@.subrange(0, 0) =~= Seq::<char>::empty());
        assert(strs_view(words@) =~= Seq::<Seq<char>>::empty());
    }
    while i < n
        invariant
            n == seg@.len(),
            start <= i <= n,
            spec_words(seg@) == spec_words_rec(
                seg@,
                i as int,
                seg@.subrange(start as int, i as int),
                strs_view(words@),
            ),
        decreases n - i,
    {
        let c = seg.get_char(i);
        if c == ' ' || c == '\t' {
            if i > start {
                let w = seg.substring_char(start, i).to_owned();
                let ghost pre = strs_view(words@);
                words.push(w);
                proof {
                    assert(strs_view(words@) =~= pre.push(w@));
                }
            } else {
                proof {
                    assert(seg@.subrange(start as int, i as int) =~= Seq::<char>::empty());
                }
            }
            start = i + 1;
            proof {
                assert(seg@.subrange(start as int, i + 1 as int) =~= Seq::<char>::empty());
            }
        } else {
            proof {
                assert(seg@.subrange(start as int, i + 1 as int) =~= seg@.subrange(
                    start as int,
                    i as int,
                ).push(seg@[i as int]));
            }
        }
        i = i + 1;
    }
    if n > start {
        let w = seg.substring_char(start, n).to_owned();
        let ghost pre = strs_view(words@);
        words.push(w);
        proof {
            assert(strs_view(words@) =~= pre.push(w@));
        }
    } else {
        proof {
            assert(seg@.subrange(start as int, n as int) =~= Seq::<char>::empty());
        }
    }
    words
}

/// The joined inner commands contributed by the first `k` segments:
/// segments with no words are dropped, the rest are joined with single
/// spaces.
pub open spec fn spec_script_commands_upto(segs: Seq<Seq<char>>, k: int) -> Seq<Seq<char>>
    decreases k,
{
    if k <= 0 {
        Seq::empty()
    } else {
        let prev = spec_script_commands_upto(segs, k - 1);
        let ws = spec_words(segs[k - 1]);
        if ws.len() > 0 {
            prev.push(spec_join_words(ws))
        } else {
            prev
        }
    }
}

/// The inner plain commands of a shell script, each joined with single
/// spaces.
pub open spec fn spec_script_commands(s: Seq<char>) -> Seq<Seq<char>> {
    spec_script_commands_upto(spec_segments(s), spec_segments(s).len() as int)
}

/// Whether an argv invokes a shell on an inline script
/// (`bash -lc "..."` and kin).
pub open spec fn spec_is_shell_wrapper(cmd: Seq<Seq<char>>) -> bool {
    &&& cmd.len() == 3
    &&& (cmd[0] == "bash"@ || cmd[0] == "sh"@ || cmd[0] == "zsh"@)
    &&& (cmd[1] == "-c"@ || cmd[1] == "-lc"@)
}

/// The plain command strings that a command is checked as: the inner
/// commands of a shell-wrapped script, or the argv itself joined with
/// single spaces.
pub open spec fn spec_inner_commands(command: Seq<Seq<char>>) -> Seq<Seq<char>> {
    if spec_is_shell_wrapper(command) {
        spec_script_commands(command[2])
    } else {
        seq![spec_join_words(command)]
    }
}

/// Decomposes a command into the plain command strings to be checked.
fn inner_command_strings(command: &Vec<String>) -> (cmds: Vec<String>)
    ensures
        strs_view(cmds@) == spec_inner_commands(strs_view(command@)),
{
    let is_wrapper = command.len() == 3 && (str_eq(command[0].as_str(), "bash") || str_eq(
        command[0].as_str(),
        "sh",
    ) || str_eq(command[0].as_str(), "zsh")) && (str_eq(command[1].as_str(), "-c") || str_eq(
        command[1].as_str(),
        "-lc",
    ));
    if is_wrapper {
        let segs = split_segments(command[2].as_str());
        let mut cmds: Vec<String> = Vec::new();
        let mut k: usize = 0;
        while k < segs.len()
            invariant
                k <= segs@.len(),
                strs_view(segs@) == spec_segments(strs_view(command@)[2]),
                strs_view(cmds@) == spec_script_commands_upto(strs_view(segs@), k as int),
            decreases segs@.len() - k,
        {
            let ws = split_words(segs[k].as_str());
            if ws.len() > 0 {
                let joined = join_words(&ws);
                cmds.push(joined);
                proof {
                    assert(strs_view(cmds@) =~= strs_view(cmds@.drop_last()).push(joined@));
                }
            }
            k = k + 1;
        }
        cmds
    } else {
        let joined = join_words(command);
        let mut cmds: Vec<String> = Vec::new();
        cmds.push(joined);
        proof {
            assert(strs_view(cmds@) =~= seq![spec_join_words(strs_view(command@))]);
        }
        cmds
    }
}

/// The first pattern at index `k` or later that matches the command
/// string, if any.
pub open spec fn spec_first_match_from(
    c: Seq<char>,
    pats: Seq<Seq<char>>,
    k: int,
) -> Option<Seq<char>>
    decreases pats.len() - k,
{
    if k < 0 || k >= pats.len() {
        None
    } else if regex_match(pats[k], c) {
        Some(pats[k])
    } else {
        spec_first_match_from(c, pats, k + 1)
    }
}

/// The first pattern that matches the command string, if any.
pub open spec fn spec_first_match(c: Seq<char>, pats: Seq<Seq<char>>) -> Option<Seq<char>> {
    spec_first_match_from(c, pats, 0)
}

/// Finds the first pattern that matches the command string.
fn find_matching_pattern(command_str: &str, patterns: &Vec<CompiledPattern>) -> (r: Option<String>)
    ensures
        opt_str_view(r) == spec_first_match(command_str@, pats_view(patterns@)),
{
    let mut k: usize = 0;
    while k < patterns.len()
        invariant
            k <= patterns@.len(),
            spec_first_match(command_str@, pats_view(patterns@)) == spec_first_match_from(
                command_str@,
                pats_view(patterns@),
                k as int,
            ),
        decreases patterns@.len() - k,
    {
        if pattern_is_match(&patterns[k], command_str) {
            return Some(patterns[k].as_str().to_owned());
        }
        k = k + 1;
    }
    None
}

/// The check result for the commands at index `k` or later.
pub open spec fn spec_check_from(
    cmds: Seq<Seq<char>>,
    deny: Seq<Seq<char>>,
    forbidden: Seq<Seq<char>>,
    k: int,
) -> DenyListCheckResultV
    decreases cmds.len() - k,
{
    if k < 0 || k >= cmds.len() {
        DenyListCheckResultV::Allowed
    } else {
        match spec_first_match(cmds[k], forbidden) {
            Some(p) => DenyListCheckResultV::Forbidden { matched_pattern: p },
            None => match spec_first_match(cmds[k], deny) {
                Some(p) => DenyListCheckResultV::RequiresApproval { matched_pattern: p },
                None => spec_check_from(cmds, deny, forbidden, k + 1),
            },
        }
    }
}

/// The check result for a command under a policy: the first inner
/// command that matches any pattern decides, a forbidden match taking
/// precedence over a deny match; if nothing matches, the command is
/// allowed.
pub open spec fn spec_check(
    command: Seq<Seq<char>>,
    deny: Seq<Seq<char>>,
    forbidden: Seq<Seq<char>>,
) -> DenyListCheckResultV {
    spec_check_from(spec_inner_commands(command), deny, forbidden, 0)
}

/// Checks a command against the security deny list.
///
/// Shell-wrapped commands are decomposed into inner plain commands, and
/// each is checked against the forbidden patterns first, then the deny
/// patterns.
pub fn check_command_against_deny_list(
    command: &Vec<String>,
    security_policy: &SecurityPolicy,
) -> (r: DenyListCheckResult)
    ensures
        r@ == spec_check(
            strs_view(command@),
            security_policy.deny_patterns(),
            security_policy.forbidden_patterns(),
        ),
{
    let commands = inner_command_strings(command);
    let ghost cmds = strs_view(commands@);
    let ghost deny = security_policy.deny_patterns();
    let ghost forbidden = security_policy.forbidden_patterns();
    let mut k: usize = 0;
    while k < commands.len()
        invariant
            k <= commands@.len(),
            cmds == strs_view(commands@),
            cmds == spec_inner_commands(strs_view(command@)),
            deny == security_policy.deny_patterns(),
            forbidden == security_policy.forbidden_patterns(),
            spec_check_from(cmds, deny, forbidden, 0) == spec_check_from(
                cmds,
                deny,
                forbidden,
                k as int,
            ),
        decreases commands@.len() - k,
    {
        proof {
            assert(cmds[k as int] == commands@[k as int]@);
        }
        match find_matching_pattern(commands[k].as_str(), &security_policy.forbidden_commands) {
            Some(matched) => {
                proof {
                    assert(spec_first_match(cmds[k as int], forbidden) == Some(matched@));
                }
                return DenyListCheckResult::Forbidden { matched_pattern: matched };
            },
            None => {},
        }
        match find_matching_pattern(commands[k].as_str(), &security_policy.deny_commands) {
            Some(matched) => {
                proof {
                    assert(spec_first_match(cmds[k as int], deny) == Some(matched@));
                }
                return DenyListCheckResult::RequiresApproval { matched_pattern: matched };
            },
            None => {},
        }
        k = k + 1;
    }
    DenyListCheckResult::Allowed
}

/// Commands that match no pattern at all do not decide the check.
proof fn lemma_check_skip(
    cmds: Seq<Seq<char>>,
    deny: Seq<Seq<char>>,
    forbidden: Seq<Seq<char>>,
    lo: int,
    hi: int,
)
    requires
        0 <= lo <= hi <= cmds.len(),
        forall|j: int|
            lo <= j < hi ==> spec_first_match(#[trigger] cmds[j], forbidden) is None
                && spec_first_match(cmds[j], deny) is None,
    ensures
        spec_check_from(cmds, deny, forbidden, lo) == spec_check_from(cmds, deny, forbidden, hi),
    decreases hi - lo,
{
    if lo < hi {
        lemma_check_skip(cmds, deny, forbidden, lo + 1, hi);
    }
}

/// A forbidden match takes precedence over a deny match: if the first
/// inner command that matches any pattern matches a forbidden pattern,
/// the result is `Forbidden`, whatever the deny patterns say of it.
pub proof fn lemma_forbidden_takes_precedence(
    cmds: Seq<Seq<char>>,
    deny: Seq<Seq<char>>,
    forbidden: Seq<Seq<char>>,
    k: int,
)
    requires
        0 <= k < cmds.len(),
        forall|j: int|
            0 <= j < k ==> spec_first_match(#[trigger] cmds[j], forbidden) is None
                && spec_first_match(cmds[j], deny) is None,
        spec_first_match(cmds[k], forbidden) is Some,
    ensures
        spec_check_from(cmds, deny, forbidden, 0) == (DenyListCheckResultV::Forbidden {
            matched_pattern: spec_first_match(cmds[k], forbidden)->0,
        }),
{
    lemma_check_skip(cmds, deny, forbidden, 0, k);
}

} // verus!
