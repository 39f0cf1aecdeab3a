//! Regular expressions whose source is known to the checker: their flags,
//! their canonical source, and what compiling and matching them gives.

use vstd::prelude::*;
use vstd::string::{StrSliceExecFns, StringExecFns};

use crate::constant::Constant;
use crate::evaluation::{
    count_of_match, count_of_shape, evaluate_match, evaluate_shape, evaluated, lemma_match_count,
    match_evaluation, shape_evaluation, Evaluation,
};
use crate::ids::{Span, SpanWithSource, TypeId, MAX_TYPE_COUNT};
use crate::objects::{Environment, LocalInformationView};
use crate::store::TypeStore;
use crate::types::{SpecialObject, Type};

verus! {

/// The flags that change how a pattern matches.
pub const SUPPORTED_FLAGS: &'static str = "imsuv";

/// The flags that are recognised but whose effect is not evaluated: indices
/// of matches, global search and sticky search. A regular expression with one
/// of them is only ever evaluated to the shape of its result.
pub const UNSUPPORTED_FLAGS: &'static str = "dgy";

/// The flags that change how a pattern matches, each on or off.
#[derive(Clone, Copy, Debug, PartialEq, Eq, Structural)]
pub struct RegExpFlags {
    /// `i`: letters match whatever their case.
    pub icase: bool,
    /// `m`: `^` and `$` match at line breaks too.
    pub multiline: bool,
    /// `s`: `.` matches line breaks too.
    pub dot_all: bool,
    /// `u`: the pattern is a Unicode pattern.
    pub unicode: bool,
    /// `v`: the pattern is a Unicode sets pattern.
    pub unicode_sets: bool,
}

pub open spec fn is_supported_flag(flag: char) -> bool {
    flag == 'i' || flag == 'm' || flag == 's' || flag == 'u' || flag == 'v'
}

pub open spec fn is_unsupported_flag(flag: char) -> bool {
    flag == 'd' || flag == 'g' || flag == 'y'
}

/// Whether every character of `flags` is a flag, supported or not.
pub open spec fn flags_known(flags: Seq<char>) -> bool {
    forall|i: int| 0 <= i < flags.len() ==> is_supported_flag(#[trigger] flags[i])
        || is_unsupported_flag(flags[i])
}

/// Whether one of `flags` is recognised but not supported.
pub open spec fn flags_unsupported(flags: Seq<char>) -> bool {
    exists|i: int| 0 <= i < flags.len() && is_unsupported_flag(#[trigger] flags[i])
}

/// What `flags` switch on. A flag may stand more than once.
pub open spec fn flags_of(flags: Seq<char>) -> RegExpFlags {
    RegExpFlags {
        icase: flags.contains('i'),
        multiline: flags.contains('m'),
        dot_all: flags.contains('s'),
        unicode: flags.contains('u'),
        unicode_sets: flags.contains('v'),
    }
}

/// Reads flags character by character: what they switch on and whether one of
/// them is unsupported, or `None` where a character is no flag.
pub fn parse_flags(flag_options: &str) -> (parsed: Option<(RegExpFlags, bool)>)
    ensures
        parsed is Some <==> flags_known(flag_options@),
        parsed matches Some((flags, unsupported)) ==> flags == flags_of(flag_options@)
            && unsupported == flags_unsupported(flag_options@),
{
    let mut flags = RegExpFlags {
        icase: false,
        multiline: false,
        dot_all: false,
        unicode: false,
        unicode_sets: false,
    };
    let mut unsupported = false;
    let count = flag_options.unicode_len();
    let mut idx: usize = 0;
    let ghost text = flag_options@;
    while idx < count
        invariant
            idx <= count,
            count == text.len(),
            text == flag_options@,
            flags_known(text.take(idx as int)),
            flags == flags_of(text.take(idx as int)),
            unsupported == flags_unsupported(text.take(idx as int)),
        decreases count - idx,
    {
        let flag = flag_options.get_char(idx);
        proof {
            let before = text.take(idx as int);
            let after = text.take(idx + 1);
            assert forall|c: char| after.contains(c) == (before.contains(c) || c == flag) by {
                if c == flag {
                    assert(after[idx as int] == c);
                }
            }
            if is_unsupported_flag(flag) {
                assert(is_unsupported_flag(after[idx as int]));
            }
        }
        if flag == 'd' || flag == 'g' || flag == 'y' {
            unsupported = true;
        } else if flag == 'i' {
            flags.icase = true;
        } else if flag == 'm' {
            flags.multiline = true;
        } else if flag == 's' {
            flags.dot_all = true;
        } else if flag == 'u' {
            flags.unicode = true;
        } else if flag == 'v' {
            flags.unicode_sets = true;
        } else {
            return None;
        }
        idx += 1;
    }
    assert(text.take(idx as int) =~= text);
    Some((flags, unsupported))
}

/// The canonical source of a regular expression: `/pattern/flags`.
pub open spec fn canonical_source(pattern: Seq<char>, flags: Seq<char>) -> Seq<char> {
    seq!['/'] + pattern + seq!['/'] + flags
}

/// Where the last `/` of `source` stands, or `-1` where it holds none.
pub open spec fn last_slash(source: Seq<char>) -> int
    decreases source.len(),
{
    if source.len() == 0 {
        -1
    } else if source.last() == '/' {
        source.len() - 1
    } else {
        last_slash(source.drop_last())
    }
}

/// The pattern and the flags of a canonical source: what stands between its
/// first character, a `/`, and its last `/`, and what stands after that.
/// `None` where the source does not begin with a `/` or holds no other.
pub open spec fn split_source(source: Seq<char>) -> Option<(Seq<char>, Seq<char>)> {
    let slash = last_slash(source);
    if source.len() >= 2 && source[0] == '/' && slash >= 1 {
        Some((source.subrange(1, slash), source.subrange(slash + 1, source.len() as int)))
    } else {
        None
    }
}

/// The last `/` of a canonical source is the one before its flags.
pub proof fn lemma_last_slash_of_source(pattern: Seq<char>, flags: Seq<char>)
    requires
        !flags.contains('/'),
    ensures
        last_slash(canonical_source(pattern, flags)) == pattern.len() + 1,
    decreases flags.len(),
{
    let source = canonical_source(pattern, flags);
    if flags.len() == 0 {
    } else {
        assert(source.drop_last() =~= canonical_source(pattern, flags.drop_last()));
        lemma_last_slash_of_source(pattern, flags.drop_last());
    }
}

/// Taking the canonical source of a pattern and flags apart gives them back.
pub proof fn lemma_source_round_trip(pattern: Seq<char>, flags: Seq<char>)
    requires
        !flags.contains('/'),
    ensures
        split_source(canonical_source(pattern, flags)) == Some((pattern, flags)),
{
    lemma_last_slash_of_source(pattern, flags);
}

/// What a source is taken apart into makes that source again.
pub proof fn lemma_split_is_canonical(source: Seq<char>)
    requires
        split_source(source) is Some,
    ensures
        ({
            let (pattern, flags) = split_source(source)->0;
            source == canonical_source(pattern, flags) && !flags.contains('/')
        }),
{
    lemma_last_slash_is_last(source);
}

/// At the last `/` stands a `/`, and none stands after it.
pub proof fn lemma_last_slash_is_last(source: Seq<char>)
    ensures
        -1 <= last_slash(source) < source.len(),
        last_slash(source) >= 0 ==> source[last_slash(source)] == '/',
        forall|i: int| last_slash(source) < i < source.len() ==> source[i] != '/',
    decreases source.len(),
{
    if source.len() > 0 && source.last() != '/' {
        lemma_last_slash_is_last(source.drop_last());
        assert forall|i: int| last_slash(source) < i < source.len() implies source[i] != '/' by {
            if i < source.len() - 1 {
                assert(source.drop_last()[i] == source[i]);
            }
        }
    }
}

/// Writing a regular expression as its canonical source and reading that
/// back gives the pattern and the flags that it was made from, whatever the
/// pattern holds: its flags hold no `/`.
pub proof fn lemma_regexp_round_trip(pattern: Seq<char>, flags: Seq<char>)
    requires
        flags_known(flags),
    ensures
        split_source(canonical_source(pattern, flags)) == Some((pattern, flags)),
{
    lemma_known_flags_hold_no_slash(flags);
    lemma_source_round_trip(pattern, flags);
}

/// Flags never hold a `/`.
pub proof fn lemma_known_flags_hold_no_slash(flags: Seq<char>)
    requires
        flags_known(flags),
    ensures
        !flags.contains('/'),
{
}

/// Writes the canonical source of a pattern and its flags.
pub fn write_source(pattern: &str, flag_options: &str) -> (source: String)
    ensures
        source@ == canonical_source(pattern@, flag_options@),
{
    proof {
        reveal_strlit("/");
    }
    let mut source = String::from_str("/");
    source.append(pattern);
    source.append("/");
    source.append(flag_options);
    source
}

/// Takes a canonical source apart at its last `/`, or `None` where it does
/// not begin with a `/` or holds no other.
pub fn read_source(source: &str) -> (parts: Option<(String, String)>)
    ensures
        match parts {
            Some((pattern, flags)) => split_source(source@) == Some((pattern@, flags@)),
            None => split_source(source@) is None,
        },
{
    let count = source.unicode_len();
    if count < 2 || source.get_char(0) != '/' {
        return None;
    }
    let mut end: usize = count;
    assert(source@.take(end as int) =~= source@);
    while end > 0 && source.get_char(end - 1) != '/'
        invariant
            end <= count,
            count == source@.len(),
            last_slash(source@) == last_slash(source@.take(end as int)),
        decreases end,
    {
        assert(source@.take(end as int).drop_last() =~= source@.take(end - 1));
        end -= 1;
    }
    if end <= 1 {
        return None;
    }
    let slash: usize = end - 1;
    let pattern = source.substring_char(1, slash);
    let flags = source.substring_char(slash + 1, count);
    Some((String::from_str(pattern), String::from_str(flags)))
}

/// What the engine makes of a pattern under the five flags, in the order
/// `i`, `m`, `s`, `u`, `v`: the number of its capture groups and their names
/// in the order of the groups, or the message of its syntax error. The names
/// are empty where no group is named; else a group without a name has the
/// empty name.
pub uninterp spec fn regress_compiled(
    pattern: Seq<char>,
    icase: bool,
    multiline: bool,
    dot_all: bool,
    unicode: bool,
    unicode_sets: bool,
) -> Result<(u32, Seq<Seq<char>>), Seq<char>>;

/// Names, as texts.
pub open spec fn names_view(names: Seq<String>) -> Seq<Seq<char>> {
    names.map_values(|name: String| name@)
}

/// What the engine makes of a pattern under `flags`.
pub open spec fn compiled(pattern: Seq<char>, flags: RegExpFlags) -> Result<
    (u32, Seq<Seq<char>>),
    Seq<char>,
> {
    regress_compiled(
        pattern,
        flags.icase,
        flags.multiline,
        flags.dot_all,
        flags.unicode,
        flags.unicode_sets,
    )
}

/// Compiles `pattern` with `regress`, as `Regex::from_unicode` does:
/// `backends::try_parse` on the code points of the pattern, then
/// `backends::optimize`, then `backends::emit`. The three calls stand
/// together because what passes between them is of types that `regress` keeps
/// private. The contract names the outcome and claims no more than that the
/// same pattern and flags give the same one: the group count and the group
/// names of the compiled program, or the text of the parser's error.
#[verifier::external_body]
fn compile(pattern: &str, flags: RegExpFlags) -> (outcome: Result<(u32, Vec<String>), String>)
    ensures
        regress_compiled(
            pattern@,
            flags.icase,
            flags.multiline,
            flags.dot_all,
            flags.unicode,
            flags.unicode_sets,
        ) == match outcome {
            Ok((groups, names)) => Ok::<(u32, Seq<Seq<char>>), Seq<char>>(
                (groups, names_view(names@)),
            ),
            Err(message) => Err(message@),
        },
{
    let (icase, multiline, dot_all) = (flags.icase, flags.multiline, flags.dot_all);
    let (unicode, unicode_sets, no_opt) = (flags.unicode, flags.unicode_sets, false);
    let flags = regress::Flags { icase, multiline, dot_all, no_opt, unicode, unicode_sets };
    let parsed = regress::backends::try_parse(pattern.chars().map(u32::from), flags);
    let mut ire = parsed.map_err(|err| err.text)?;
    regress::backends::optimize(&mut ire);
    let program = regress::backends::emit(&ire);
    Ok((program.groups, program.group_names.iter().map(|name| name.to_string()).collect()))
}

/// The first match of a pattern in a text: where it starts, the range of
/// each group, and the range of each named group under its name. A range is
/// a pair of byte offsets into the text, its start and its end. The first
/// group is the whole match; a group that took no part has no range.
#[derive(Clone, Debug)]
pub struct RegExpMatch {
    pub start: usize,
    pub groups: Vec<Option<(usize, usize)>>,
    pub named_groups: Vec<(String, Option<(usize, usize)>)>,
}

/// A [`RegExpMatch`], as mathematical values.
pub struct RegExpMatchView {
    pub start: usize,
    pub groups: Seq<Option<(usize, usize)>>,
    pub named_groups: Seq<(Seq<char>, Option<(usize, usize)>)>,
}

impl View for RegExpMatch {
    type V = RegExpMatchView;

    open spec fn view(&self) -> RegExpMatchView {
        RegExpMatchView {
            start: self.start,
            groups: self.groups@,
            named_groups: self.named_groups@.map_values(
                |named: (String, Option<(usize, usize)>)| (named.0@, named.1),
            ),
        }
    }
}

/// The view of a match that may be missing.
pub open spec fn found_view(found: Option<RegExpMatch>) -> Option<RegExpMatchView> {
    match found {
        Some(found) => Some(found@),
        None => None,
    }
}

/// The first match that the engine finds of a pattern, compiled under the
/// five flags in the order `i`, `m`, `s`, `u`, `v`, in a text. There is none
/// where the pattern does not compile.
pub uninterp spec fn regress_first_match(
    pattern: Seq<char>,
    icase: bool,
    multiline: bool,
    dot_all: bool,
    unicode: bool,
    unicode_sets: bool,
    text: Seq<char>,
) -> Option<RegExpMatchView>;

/// The first match of a pattern, compiled under `flags`, in a text.
pub open spec fn first_match(pattern: Seq<char>, flags: RegExpFlags, text: Seq<char>) -> Option<
    RegExpMatchView,
> {
    regress_first_match(
        pattern,
        flags.icase,
        flags.multiline,
        flags.dot_all,
        flags.unicode,
        flags.unicode_sets,
        text,
    )
}

/// Searches `text` with `regress`: `Regex::with_flags` compiles the pattern,
/// `Regex::find` gives the first match, and `Match::start`, `Match::groups`
/// and `Match::named_groups` give what is handed out. The calls stand together
/// because a `Regex` and a `Match` show nothing of themselves to a contract:
/// only from the pattern to the ranges can an outcome be named. The contract
/// names it and claims no more than that the same pattern, flags and text
/// give the same one.
#[verifier::external_body]
fn find_first(pattern: &str, flags: RegExpFlags, text: &str) -> (found: Option<RegExpMatch>)
    ensures
        regress_first_match(
            pattern@,
            flags.icase,
            flags.multiline,
            flags.dot_all,
            flags.unicode,
            flags.unicode_sets,
            text@,
        ) == found_view(found),
{
    let (icase, multiline, dot_all) = (flags.icase, flags.multiline, flags.dot_all);
    let (unicode, unicode_sets, no_opt) = (flags.unicode, flags.unicode_sets, false);
    let flags = regress::Flags { icase, multiline, dot_all, no_opt, unicode, unicode_sets };
    let found = regress::Regex::with_flags(pattern, flags).ok()?.find(text)?;
    let pair = |range: std::ops::Range<usize>| (range.start, range.end);
    let groups = found.groups().map(|group| group.map(pair)).collect();
    let named = found.named_groups().map(|(name, group)| (name.to_string(), group.map(pair)));
    Some(RegExpMatch { start: found.start(), groups, named_groups: named.collect() })
}

/// A regular expression that compiled. It keeps its pattern and flags, not
/// the compiled program: a search compiles the pattern again.
#[derive(Clone, Debug)]
pub struct RegExp {
    source: String,
    pattern: String,
    flags: RegExpFlags,
    groups: u64,
    group_names: Vec<String>,
    flags_unsupported: bool,
    used: bool,
}

/// What a [`RegExp`] holds, as mathematical values.
pub struct RegExpView {
    /// The canonical source: `/pattern/flags`.
    pub source: Seq<char>,
    pub pattern: Seq<char>,
    pub flags: RegExpFlags,
    /// The number of groups of a match: the capture groups and the whole match.
    pub groups: u64,
    /// The names of the capture groups, as the engine gave them.
    pub group_names: Seq<Seq<char>>,
    /// Whether a flag was given that is recognised but not supported.
    pub flags_unsupported: bool,
    pub used: bool,
}

impl View for RegExp {
    type V = RegExpView;

    closed spec fn view(&self) -> RegExpView {
        RegExpView {
            source: self.source@,
            pattern: self.pattern@,
            flags: self.flags,
            groups: self.groups,
            group_names: names_view(self.group_names@),
            flags_unsupported: self.flags_unsupported,
            used: self.used,
        }
    }
}

/// Where `name` first stands in `names`, if it does.
pub open spec fn first_index(names: Seq<Seq<char>>, name: Seq<char>) -> Option<int>
    decreases names.len(),
{
    if names.len() == 0 {
        None
    } else {
        match first_index(names.drop_last(), name) {
            Some(index) => Some(index),
            None => if names.last() == name {
                Some(names.len() - 1)
            } else {
                None
            },
        }
    }
}

/// Where a name first stands among the first names, it first stands among all.
pub proof fn lemma_first_index_stays(names: Seq<Seq<char>>, name: Seq<char>, upto: int)
    requires
        0 <= upto <= names.len(),
        first_index(names.take(upto), name) is Some,
    ensures
        first_index(names, name) == first_index(names.take(upto), name),
        0 <= first_index(names, name)->0 < upto,
    decreases names.len(),
{
    if upto == names.len() {
        assert(names.take(upto) =~= names);
        lemma_first_index_in_range(names, name);
    } else {
        assert(names.drop_last().take(upto) =~= names.take(upto));
        lemma_first_index_stays(names.drop_last(), name, upto);
    }
}

/// Where a name first stands, it stands.
pub proof fn lemma_first_index_in_range(names: Seq<Seq<char>>, name: Seq<char>)
    ensures
        first_index(names, name) matches Some(index) ==> 0 <= index < names.len() && names[index]
            == name,
    decreases names.len(),
{
    if names.len() > 0 {
        lemma_first_index_in_range(names.drop_last(), name);
    }
}

/// The index of the first capture group with the name `name`, counting the
/// whole match as group zero. The empty name is that of no group.
pub open spec fn group_index(names: Seq<Seq<char>>, name: Seq<char>) -> Option<usize> {
    if name.len() == 0 {
        None
    } else {
        match first_index(names, name) {
            Some(index) => Some((index + 1) as usize),
            None => None,
        }
    }
}

/// The text of flags that may be left out.
pub open spec fn flag_text(flag_options: Option<&str>) -> Seq<char> {
    match flag_options {
        Some(flag_options) => flag_options@,
        None => Seq::empty(),
    }
}

/// The regular expression that `pattern` and `flags` make, where the engine
/// found `groups` capture groups with the names `group_names` in the pattern.
pub open spec fn regexp_of(
    pattern: Seq<char>,
    flags: Seq<char>,
    groups: u32,
    group_names: Seq<Seq<char>>,
) -> RegExpView {
    RegExpView {
        source: canonical_source(pattern, flags),
        pattern,
        flags: flags_of(flags),
        groups: (groups + 1) as u64,
        group_names,
        flags_unsupported: flags_unsupported(flags),
        used: false,
    }
}

impl RegExp {
    /// Compiles `pattern` under the flags `flag_options`. The error is the
    /// message of the engine's parser.
    pub fn new(pattern: &str, flag_options: Option<&str>) -> (made: Result<Self, String>)
        requires
            flags_known(flag_text(flag_options)),
        ensures
            match compiled(pattern@, flags_of(flag_text(flag_options))) {
                Ok((groups, group_names)) => made matches Ok(regexp) && regexp@ == regexp_of(
                    pattern@,
                    flag_text(flag_options),
                    groups,
                    group_names,
                ),
                Err(message) => made matches Err(text) && text@ == message,
            },
    {
        let (source, parsed) = match flag_options {
            Some(flag_options) => (write_source(pattern, flag_options), parse_flags(flag_options)),
            None => {
                proof {
                    reveal_strlit("");
                }
                (write_source(pattern, ""), parse_flags(""))
            },
        };
        let (flags, flags_unsupported) = parsed.unwrap();
        match compile(pattern, flags) {
            Ok((groups, group_names)) => Ok(
                RegExp {
                    source,
                    pattern: String::from_str(pattern),
                    flags,
                    groups: groups as u64 + 1,
                    group_names,
                    flags_unsupported,
                    used: false,
                },
            ),
            Err(message) => Err(message),
        }
    }

    /// Rebuilds a regular expression from its canonical source. `None` where
    /// the source is not canonical or holds a character that is no flag; else
    /// what compiling its pattern under its flags gives.
    pub fn from_source(source: &str) -> (rebuilt: Option<Result<Self, String>>)
        ensures
            match split_source(source@) {
                Some((pattern, flags)) => if flags_known(flags) {
                    match compiled(pattern, flags_of(flags)) {
                        Ok((groups, group_names)) => rebuilt matches Some(Ok(regexp)) && regexp@
                            == regexp_of(pattern, flags, groups, group_names) && regexp@.source
                            == source@,
                        Err(message) => rebuilt matches Some(Err(text)) && text@ == message,
                    }
                } else {
                    rebuilt is None
                },
                None => rebuilt is None,
            },
    {
        match read_source(source) {
            Some((pattern, flags)) => {
                if parse_flags(flags.as_str()).is_some() {
                    let flag_options = if flags.as_str().is_empty() {
                        None
                    } else {
                        Some(flags.as_str())
                    };
                    proof {
                        lemma_split_is_canonical(source@);
                    }
                    Some(RegExp::new(pattern.as_str(), flag_options))
                } else {
                    None
                }
            },
            None => None,
        }
    }

    /// The canonical source: `/pattern/flags`.
    pub fn source(&self) -> (source: &str)
        ensures
            source@ == self@.source,
    {
        self.source.as_str()
    }

    pub fn used(&self) -> (used: bool)
        ensures
            used == self@.used,
    {
        self.used
    }

    /// Whether a flag was given that is recognised but not supported.
    pub fn flags_unsupported(&self) -> (unsupported: bool)
        ensures
            unsupported == self@.flags_unsupported,
    {
        self.flags_unsupported
    }

    /// The number of groups of a match: the capture groups and the whole match.
    pub fn groups(&self) -> (groups: u64)
        ensures
            groups == self@.groups,
    {
        self.groups
    }

    /// The index of the capture group named `name`, counting the whole match
    /// as group zero: that of the first group with this name.
    pub fn group_index_of(&self, name: &str) -> (index: Option<usize>)
        ensures
            index == group_index(self@.group_names, name@),
    {
        if name.is_empty() {
            return None;
        }
        let wanted = String::from_str(name);
        let mut idx: usize = 0;
        let ghost names = names_view(self.group_names@);
        while idx < self.group_names.len()
            invariant
                idx <= self.group_names@.len(),
                names == names_view(self.group_names@),
                names == self@.group_names,
                wanted@ == name@,
                name@.len() > 0,
                first_index(names.take(idx as int), name@) is None,
            decreases self.group_names@.len() - idx,
        {
            proof {
                assert(names.take(idx + 1).drop_last() =~= names.take(idx as int));
            }
            if self.group_names[idx] == wanted {
                proof {
                    lemma_first_index_stays(names, name@, idx + 1);
                }
                return Some(idx + 1);
            }
            idx += 1;
        }
        assert(names.take(idx as int) =~= names);
        None
    }

    /// The text that `id` is the constant of, where it is one and the flags
    /// of the regular expression are all supported: only then is a match evaluated.
    pub open spec fn known_text(self, types: Seq<Type>, id: TypeId) -> Option<Seq<char>> {
        match types[id as int] {
            Type::Constant(Constant::String(text)) => if self@.flags_unsupported {
                None
            } else {
                Some(text@)
            },
            _ => None,
        }
    }

    /// What evaluating the regular expression against the type `id` does.
    pub open spec fn evaluation(
        self,
        types: Seq<Type>,
        info: LocalInformationView,
        id: TypeId,
    ) -> Evaluation {
        match self.known_text(types, id) {
            Some(text) => match_evaluation(
                types.len(),
                info,
                id,
                text,
                first_match(self@.pattern, self@.flags, text),
                self@.groups,
            ),
            None => shape_evaluation(types.len(), info, self@.groups, self@.group_names),
        }
    }

    /// Evaluates the regular expression against the type `pattern_type_id`:
    /// against its text where that is known and every flag is supported, else
    /// only to the shape of a result.
    pub fn exec(
        &self,
        pattern_type_id: TypeId,
        types: &mut TypeStore,
        environment: &mut Environment,
        call_site: SpanWithSource,
    ) -> (result: TypeId)
        requires
            old(types).wf(),
            old(types)@.contains(pattern_type_id),
            old(types)@.types.len() + self.evaluation(
                old(types)@.types,
                old(environment).info@,
                pattern_type_id,
            ).registered.len() <= MAX_TYPE_COUNT,
        ensures
            final(types).wf(),
            evaluated(
                old(types)@,
                final(types)@,
                final(environment).info@,
                self.evaluation(old(types)@.types, old(environment).info@, pattern_type_id),
            ),
            result == self.evaluation(
                old(types)@.types,
                old(environment).info@,
                pattern_type_id,
            ).result,
    {
        if !self.flags_unsupported {
            if let Type::Constant(Constant::String(pattern)) = types.get_type_by_id(
                pattern_type_id,
            ) {
                let pattern = pattern.clone();
                return self.exec_constant(pattern, pattern_type_id, types, environment, call_site);
            }
        }
        self.exec_variable(types, environment, call_site)
    }

    /// Evaluates the regular expression against the known text `pattern`,
    /// whose type is `pattern_type_id`.
    pub fn exec_constant(
        &self,
        pattern: String,
        pattern_type_id: TypeId,
        types: &mut TypeStore,
        environment: &mut Environment,
        call_site: SpanWithSource,
    ) -> (result: TypeId)
        requires
            old(types).wf(),
            old(types)@.types.len() + match_evaluation(
                old(types)@.types.len(),
                old(environment).info@,
                pattern_type_id,
                pattern@,
                first_match(self@.pattern, self@.flags, pattern@),
                self@.groups,
            ).registered.len() <= MAX_TYPE_COUNT,
        ensures
            final(types).wf(),
            evaluated(
                old(types)@,
                final(types)@,
                final(environment).info@,
                match_evaluation(
                    old(types)@.types.len(),
                    old(environment).info@,
                    pattern_type_id,
                    pattern@,
                    first_match(self@.pattern, self@.flags, pattern@),
                    self@.groups,
                ),
            ),
            result == match_evaluation(
                old(types)@.types.len(),
                old(environment).info@,
                pattern_type_id,
                pattern@,
                first_match(self@.pattern, self@.flags, pattern@),
                self@.groups,
            ).result,
    {
        let found = find_first(self.pattern.as_str(), self.flags, pattern.as_str());
        evaluate_match(
            &found,
            pattern_type_id,
            pattern.as_str(),
            self.groups,
            types,
            environment,
            call_site,
        )
    }

    /// Evaluates the regular expression to the shape of a result: what a
    /// match against a text that is not known would look like, or `null`.
    pub fn exec_variable(
        &self,
        types: &mut TypeStore,
        environment: &mut Environment,
        call_site: SpanWithSource,
    ) -> (result: TypeId)
        requires
            old(types).wf(),
            old(types)@.types.len() + shape_evaluation(
                old(types)@.types.len(),
                old(environment).info@,
                self@.groups,
                self@.group_names,
            ).registered.len() <= MAX_TYPE_COUNT,
        ensures
            final(types).wf(),
            evaluated(
                old(types)@,
                final(types)@,
                final(environment).info@,
                shape_evaluation(
                    old(types)@.types.len(),
                    old(environment).info@,
                    self@.groups,
                    self@.group_names,
                ),
            ),
            result == shape_evaluation(
                old(types)@.types.len(),
                old(environment).info@,
                self@.groups,
                self@.group_names,
            ).result,
    {
        evaluate_shape(self.groups, &self.group_names, types, environment, call_site)
    }

    /// Evaluates the regular expression against the type `pattern_type_id`
    /// where the store has room for what that registers, and leaves the store
    /// and the context as they are where it has not.
    pub fn try_exec(
        &self,
        pattern_type_id: TypeId,
        types: &mut TypeStore,
        environment: &mut Environment,
        call_site: SpanWithSource,
    ) -> (result: Option<TypeId>)
        requires
            old(types).wf(),
            old(types)@.contains(pattern_type_id),
        ensures
            final(types).wf(),
            result is Some <==> old(types)@.types.len() + self.evaluation(
                old(types)@.types,
                old(environment).info@,
                pattern_type_id,
            ).registered.len() <= MAX_TYPE_COUNT,
            match result {
                Some(result) => evaluated(
                    old(types)@,
                    final(types)@,
                    final(environment).info@,
                    self.evaluation(old(types)@.types, old(environment).info@, pattern_type_id),
                ) && result == self.evaluation(
                    old(types)@.types,
                    old(environment).info@,
                    pattern_type_id,
                ).result,
                None => final(types)@ == old(types)@ && final(environment).info@ == old(
                    environment,
                ).info@,
            },
    {
        let room = (MAX_TYPE_COUNT - types.count_of_types()) as u128;
        let needed = if self.flags_unsupported {
            count_of_shape(self.groups)
        } else if let Type::Constant(Constant::String(pattern)) = types.get_type_by_id(
            pattern_type_id,
        ) {
            let found = find_first(self.pattern.as_str(), self.flags, pattern.as_str());
            count_of_match(&found, pattern.as_str(), self.groups)
        } else {
            count_of_shape(self.groups)
        };
        proof {
            lemma_match_count(
                types@.types.len(),
                environment.info@,
                pattern_type_id,
                self.known_text(types@.types, pattern_type_id),
                first_match(
                    self@.pattern,
                    self@.flags,
                    self.known_text(types@.types, pattern_type_id)->0,
                ),
                self@.groups,
                self@.group_names,
            );
        }
        if needed <= room {
            Some(self.exec(pattern_type_id, types, environment, call_site))
        } else {
            None
        }
    }
}

impl TypeStore {
    /// The type of a regular expression literal: compiles `pattern` under
    /// `flags` and registers what that gives. The error is the message of the
    /// engine's parser, and nothing is registered then.
    pub fn new_regexp(&mut self, pattern: &str, flags: &str, _position: &Span) -> (made: Result<
        TypeId,
        String,
    >)
        requires
            old(self).wf(),
            old(self)@.types.len() < MAX_TYPE_COUNT,
            flags_known(flags@),
        ensures
            final(self).wf(),
            match compiled(pattern@, flags_of(flags@)) {
                Ok((groups, group_names)) => {
                    &&& made == Ok::<TypeId, String>(old(self)@.types.len() as TypeId)
                    &&& final(self)@ == old(self)@.register(final(self)@.types.last())
                    &&& final(self)@.types.last() matches Type::SpecialObject(
                        SpecialObject::RegularExpression(regexp),
                    ) && regexp@ == regexp_of(pattern@, flags@, groups, group_names)
                },
                Err(message) => {
                    &&& made matches Err(text) && text@ == message
                    &&& final(self)@ == old(self)@
                },
            },
    {
        match RegExp::new(pattern, Some(flags)) {
            Ok(regexp) => {
                let ty = Type::SpecialObject(SpecialObject::RegularExpression(regexp));
                Ok(self.register_type(ty))
            },
            Err(message) => Err(message),
        }
    }
}

} // verus!
