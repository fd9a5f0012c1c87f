//! The access control list: which token types may perform which operations.
//!
//! An ACL text holds one rule per line, `<types> <method> <pattern>`, its words
//! set apart by spaces. The types are the codes of token types, separated by
//! commas (`u`, `b`, `a`, `p`, `lu`, `la`), or `-` for none. The method is
//! compared byte for byte. The pattern starts with `/`; its segments are set
//! apart by `/`, and the segment `*` stands for any one segment of a path. Lines
//! without words and lines that start with `#` are skipped.
//!
//! Rules are tried in the order of the text. The first rule whose method and
//! pattern match decides: access is granted if the token's type is among the
//! rule's types. If no rule matches, access is denied.

use vstd::prelude::*;
use vstd::slice::{slice_subrange, slice_to_vec};

use crate::text::{
    bytes_eq, is_ignored, is_ignored_line, spans_locate, spans_locate_split, split, split_spans,
    word_spans, words, Span, NEWLINE, SPACE,
};
use crate::token::{token_type_from, token_type_of, TokenType};

verus! {

/// The byte that sets the segments of a path apart.
pub const SLASH: u8 = 0x2f;

/// The segment that matches any segment, `*`.
pub const STAR: u8 = 0x2a;

/// The byte that sets type codes apart.
pub const COMMA: u8 = 0x2c;

/// The word that stands for no type at all, `-`.
pub const DASH: u8 = 0x2d;

/// Why an ACL text was rejected.
#[derive(Clone, Copy, Debug, PartialEq, Eq, Structural)]
pub enum AclError {
    /// A line is neither skipped nor a rule.
    Parse,
}

/// A set of token types. The unknown type is in no set.
#[derive(Clone, Copy, Debug, PartialEq, Eq, Structural)]
pub struct TypeSet {
    pub user: bool,
    pub bot: bool,
    pub access: bool,
    pub provider: bool,
    pub legal_hold_user: bool,
    pub legal_hold_access: bool,
}

impl TypeSet {
    /// The set without members.
    pub open spec fn none() -> TypeSet {
        TypeSet {
            user: false,
            bot: false,
            access: false,
            provider: false,
            legal_hold_user: false,
            legal_hold_access: false,
        }
    }

    /// Whether `t` is a member.
    pub open spec fn contains(self, t: TokenType) -> bool {
        match t {
            TokenType::User => self.user,
            TokenType::Bot => self.bot,
            TokenType::Access => self.access,
            TokenType::Provider => self.provider,
            TokenType::LegalHoldUser => self.legal_hold_user,
            TokenType::LegalHoldAccess => self.legal_hold_access,
            TokenType::Unknown => false,
        }
    }

    /// The set with `t` added; adding the unknown type changes nothing.
    pub open spec fn with(self, t: TokenType) -> TypeSet {
        match t {
            TokenType::User => TypeSet { user: true, ..self },
            TokenType::Bot => TypeSet { bot: true, ..self },
            TokenType::Access => TypeSet { access: true, ..self },
            TokenType::Provider => TypeSet { provider: true, ..self },
            TokenType::LegalHoldUser => TypeSet { legal_hold_user: true, ..self },
            TokenType::LegalHoldAccess => TypeSet { legal_hold_access: true, ..self },
            TokenType::Unknown => self,
        }
    }

    /// The set without members.
    pub fn empty() -> (set: TypeSet)
        ensures
            set == TypeSet::none(),
    {
        TypeSet {
            user: false,
            bot: false,
            access: false,
            provider: false,
            legal_hold_user: false,
            legal_hold_access: false,
        }
    }

    /// Whether `t` is a member.
    pub fn has(&self, t: TokenType) -> (yes: bool)
        ensures
            yes == self.contains(t),
    {
        match t {
            TokenType::User => self.user,
            TokenType::Bot => self.bot,
            TokenType::Access => self.access,
            TokenType::Provider => self.provider,
            TokenType::LegalHoldUser => self.legal_hold_user,
            TokenType::LegalHoldAccess => self.legal_hold_access,
            TokenType::Unknown => false,
        }
    }

    /// Adds `t`.
    pub fn insert(&mut self, t: TokenType)
        ensures
            *final(self) == old(self).with(t),
    {
        match t {
            TokenType::User => {
                self.user = true;
            },
            TokenType::Bot => {
                self.bot = true;
            },
            TokenType::Access => {
                self.access = true;
            },
            TokenType::Provider => {
                self.provider = true;
            },
            TokenType::LegalHoldUser => {
                self.legal_hold_user = true;
            },
            TokenType::LegalHoldAccess => {
                self.legal_hold_access = true;
            },
            TokenType::Unknown => {},
        }
    }
}

/// What a rule is, apart from how it is stored. A segment of the pattern is
/// `None` where it matches any segment, else the bytes that it must equal.
pub struct RuleView {
    pub allowed: TypeSet,
    pub method: Seq<u8>,
    pub pattern: Seq<Option<Seq<u8>>>,
}

/// The set that a list of type codes names, where each is the code of a type.
pub open spec fn types_of_codes(codes: Seq<Seq<u8>>) -> Option<TypeSet>
    decreases codes.len(),
{
    if codes.len() == 0 {
        Some(TypeSet::none())
    } else {
        match types_of_codes(codes.drop_last()) {
            None => None,
            Some(set) => if token_type_of(codes.last()) == TokenType::Unknown {
                None
            } else {
                Some(set.with(token_type_of(codes.last())))
            },
        }
    }
}

/// The set that the first word of a rule names.
pub open spec fn types_of(word: Seq<u8>) -> Option<TypeSet> {
    if word == seq![DASH] {
        Some(TypeSet::none())
    } else {
        types_of_codes(split(word, COMMA))
    }
}

/// The pattern segment that a piece of a pattern text stands for.
pub open spec fn segment_of(piece: Seq<u8>) -> Option<Seq<u8>> {
    if piece == seq![STAR] {
        None
    } else {
        Some(piece)
    }
}

/// The segments of a pattern text.
pub open spec fn pattern_of(text: Seq<u8>) -> Seq<Option<Seq<u8>>> {
    split(text, SLASH).map_values(|piece: Seq<u8>| segment_of(piece))
}

/// The rule that a line spells out, where it spells one.
pub open spec fn rule_of(line: Seq<u8>) -> Option<RuleView> {
    let w = words(line, SPACE);
    if w.len() == 3 && types_of(w[0]) is Some && w[2][0] == SLASH {
        Some(RuleView { allowed: types_of(w[0])->Some_0, method: w[1], pattern: pattern_of(w[2]) })
    } else {
        None
    }
}

/// The rules that the lines of an ACL text hold, in order.
pub open spec fn rules_of_lines(lines: Seq<Seq<u8>>) -> Result<Seq<RuleView>, AclError>
    decreases lines.len(),
{
    if lines.len() == 0 {
        Ok(Seq::empty())
    } else {
        match rules_of_lines(lines.drop_last()) {
            Err(e) => Err(e),
            Ok(rules) => if is_ignored(lines.last()) {
                Ok(rules)
            } else {
                match rule_of(lines.last()) {
                    None => Err(AclError::Parse),
                    Some(rule) => Ok(rules.push(rule)),
                }
            },
        }
    }
}

/// The rules that an ACL text holds: all of them, or none if one line is
/// refused.
pub open spec fn acl_of(text: Seq<u8>) -> Result<Seq<RuleView>, AclError> {
    rules_of_lines(split(text, NEWLINE))
}

/// Whether a pattern segment matches a segment of a path.
pub open spec fn segment_matches(segment: Option<Seq<u8>>, piece: Seq<u8>) -> bool {
    match segment {
        None => true,
        Some(literal) => literal == piece,
    }
}

/// Whether a pattern matches a path: as many segments, and each matches.
pub open spec fn pattern_matches(pattern: Seq<Option<Seq<u8>>>, path: Seq<u8>) -> bool {
    let pieces = split(path, SLASH);
    &&& pattern.len() == pieces.len()
    &&& forall|i: int| 0 <= i < pattern.len() ==> segment_matches(#[trigger] pattern[i], pieces[i])
}

/// Whether a rule applies to an operation.
pub open spec fn rule_matches(rule: RuleView, method: Seq<u8>, path: Seq<u8>) -> bool {
    rule.method == method && pattern_matches(rule.pattern, path)
}

/// Whether the rule at `i` is the first that applies to the operation.
pub open spec fn is_first_match(
    rules: Seq<RuleView>,
    i: int,
    method: Seq<u8>,
    path: Seq<u8>,
) -> bool {
    &&& 0 <= i < rules.len()
    &&& rule_matches(rules[i], method, path)
    &&& forall|j: int| 0 <= j < i ==> !rule_matches(#[trigger] rules[j], method, path)
}

/// Whether the rules grant a token of type `token_type` the operation: the first
/// rule that applies must name the type.
pub open spec fn decision(
    rules: Seq<RuleView>,
    token_type: TokenType,
    method: Seq<u8>,
    path: Seq<u8>,
) -> bool {
    exists|i: int| #[trigger]
        is_first_match(rules, i, method, path) && rules[i].allowed.contains(token_type)
}

/// Where no rule applies to an operation, it is denied to every type.
pub proof fn lemma_no_match_denies(
    rules: Seq<RuleView>,
    token_type: TokenType,
    method: Seq<u8>,
    path: Seq<u8>,
)
    requires
        forall|i: int| 0 <= i < rules.len() ==> !rule_matches(#[trigger] rules[i], method, path),
    ensures
        !decision(rules, token_type, method, path),
{
}

/// Where several rules apply to an operation, the first of them decides alone.
pub proof fn lemma_first_match_decides(
    rules: Seq<RuleView>,
    i: int,
    token_type: TokenType,
    method: Seq<u8>,
    path: Seq<u8>,
)
    requires
        is_first_match(rules, i, method, path),
    ensures
        decision(rules, token_type, method, path) == rules[i].allowed.contains(token_type),
{
    if decision(rules, token_type, method, path) {
        let k = choose|k: int| #[trigger]
            is_first_match(rules, k, method, path) && rules[k].allowed.contains(token_type);
        assert(k == i);
    }
}

/// The unknown token type is granted nothing.
pub proof fn lemma_unknown_type_denied(rules: Seq<RuleView>, method: Seq<u8>, path: Seq<u8>)
    ensures
        !decision(rules, TokenType::Unknown, method, path),
{
}

/// An evaluation depends on the rules and on the operation only: any two
/// results for the same rules and operation agree.
pub proof fn lemma_evaluation_repeats(
    rules: Seq<RuleView>,
    token_type: TokenType,
    method: Seq<u8>,
    path: Seq<u8>,
    first: bool,
    second: bool,
)
    requires
        first == decision(rules, token_type, method, path),
        second == decision(rules, token_type, method, path),
    ensures
        first == second,
{
}

/// A segment of a pattern.
#[derive(Debug)]
enum Segment {
    /// Matches any segment.
    Any,
    /// Matches the segment that equals it.
    Literal(Vec<u8>),
}

impl View for Segment {
    type V = Option<Seq<u8>>;

    closed spec fn view(&self) -> Option<Seq<u8>> {
        match self {
            Segment::Any => None,
            Segment::Literal(bytes) => Some(bytes@),
        }
    }
}

/// A rule: the operation it applies to, and the token types it grants it to.
#[derive(Debug)]
struct Rule {
    allowed: TypeSet,
    method: Vec<u8>,
    pattern: Vec<Segment>,
}

impl View for Rule {
    type V = RuleView;

    closed spec fn view(&self) -> RuleView {
        RuleView {
            allowed: self.allowed,
            method: self.method@,
            pattern: self.pattern@.map_values(|segment: Segment| segment@),
        }
    }
}

fn read_types(word: &[u8]) -> (set: Option<TypeSet>)
    ensures
        set == types_of(word@),
{
    if word.len() == 1 && word[0] == DASH {
        assert(word@ =~= seq![DASH]);
        return Some(TypeSet::empty());
    }
    assert(word@ != seq![DASH]) by {
        if word@ == seq![DASH] {
            assert(seq![DASH].len() == 1 && seq![DASH][0] == DASH);
        }
    }
    let codes = split_spans(word, COMMA);
    let ghost parts = split(word@, COMMA);
    let mut set = TypeSet::empty();
    let mut i: usize = 0;
    assert(parts.take(0) =~= Seq::<Seq<u8>>::empty());
    while i < codes.len()
        invariant
            i <= codes.len(),
            parts == split(word@, COMMA),
            word@ != seq![DASH],
            spans_locate_split(codes@, word@, COMMA),
            types_of_codes(parts.take(i as int)) == Some(set),
        decreases codes.len() - i,
    {
        let span = codes[i];
        let t = token_type_from(slice_subrange(word, span.start, span.end));
        proof {
            assert(parts.take(i + 1).drop_last() =~= parts.take(i as int));
            assert(parts.take(i + 1).last() == parts[i as int]);
        }
        if t == TokenType::Unknown {
            proof {
                lemma_types_of_codes_fails(parts, i + 1);
            }
            return None;
        }
        set.insert(t);
        i += 1;
    }
    proof {
        assert(parts.take(codes.len() as int) =~= parts);
    }
    Some(set)
}

proof fn lemma_types_of_codes_fails(codes: Seq<Seq<u8>>, n: int)
    requires
        0 <= n <= codes.len(),
        types_of_codes(codes.take(n)) is None,
    ensures
        types_of_codes(codes) is None,
    decreases codes.len(),
{
    if n == codes.len() {
        assert(codes.take(n) =~= codes);
    } else {
        assert(codes.drop_last().take(n) =~= codes.take(n));
        lemma_types_of_codes_fails(codes.drop_last(), n);
    }
}

fn read_pattern(text: &[u8]) -> (pattern: Vec<Segment>)
    ensures
        pattern@.map_values(|segment: Segment| segment@) == pattern_of(text@),
{
    let pieces = split_spans(text, SLASH);
    let ghost parts = split(text@, SLASH);
    let mut pattern: Vec<Segment> = Vec::new();
    let mut i: usize = 0;
    while i < pieces.len()
        invariant
            i <= pieces.len(),
            parts == split(text@, SLASH),
            spans_locate_split(pieces@, text@, SLASH),
            pattern.len() == i,
            forall|k: int| 0 <= k < i ==> (#[trigger] pattern[k])@ == segment_of(parts[k]),
        decreases pieces.len() - i,
    {
        let span = pieces[i];
        let piece = slice_subrange(text, span.start, span.end);
        if piece.len() == 1 && piece[0] == STAR {
            assert(piece@ =~= seq![STAR]);
            pattern.push(Segment::Any);
        } else {
            assert(piece@ != seq![STAR]) by {
                if piece@ == seq![STAR] {
                    assert(seq![STAR].len() == 1 && seq![STAR][0] == STAR);
                }
            }
            pattern.push(Segment::Literal(slice_to_vec(piece)));
        }
        i += 1;
    }
    assert(pattern@.map_values(|segment: Segment| segment@) =~= pattern_of(text@));
    pattern
}

impl Rule {
    /// Reads a rule from a line, from where the line's words lie.
    fn read(line: &[u8], found: &Vec<Span>) -> (rule: Option<Rule>)
        requires
            spans_locate(found@, line@, words(line@, SPACE)),
        ensures
            match rule {
                Some(r) => rule_of(line@) == Some(r@),
                None => rule_of(line@) is None,
            },
    {
        if found.len() != 3 {
            return None;
        }
        let allowed = match read_types(slice_subrange(line, found[0].start, found[0].end)) {
            Some(set) => set,
            None => {
                return None;
            },
        };
        let method = slice_subrange(line, found[1].start, found[1].end);
        let text = slice_subrange(line, found[2].start, found[2].end);
        if text[0] != SLASH {
            return None;
        }
        Some(Rule { allowed, method: slice_to_vec(method), pattern: read_pattern(text) })
    }

    /// Whether the rule applies to the operation, given where the segments of
    /// `path` lie.
    fn matches_pieces(&self, method: &[u8], path: &[u8], pieces: &Vec<Span>) -> (yes: bool)
        requires
            spans_locate_split(pieces@, path@, SLASH),
        ensures
            yes == rule_matches(self@, method@, path@),
    {
        if !bytes_eq(self.method.as_slice(), method) {
            return false;
        }
        if self.pattern.len() != pieces.len() {
            return false;
        }
        let ghost parts = split(path@, SLASH);
        let mut i: usize = 0;
        while i < self.pattern.len()
            invariant
                i <= self.pattern.len(),
                self.pattern.len() == pieces.len(),
                parts == split(path@, SLASH),
                spans_locate_split(pieces@, path@, SLASH),
                self@.method == method@,
                forall|k: int|
                    0 <= k < i ==> segment_matches(#[trigger] self@.pattern[k], parts[k]),
            decreases self.pattern.len() - i,
        {
            let span = pieces[i];
            let piece = slice_subrange(path, span.start, span.end);
            assert(self@.pattern[i as int] == self.pattern[i as int]@);
            let hit = match &self.pattern[i] {
                Segment::Any => true,
                Segment::Literal(literal) => bytes_eq(literal.as_slice(), piece),
            };
            if !hit {
                assert(!segment_matches(self@.pattern[i as int], parts[i as int]));
                return false;
            }
            i += 1;
        }
        true
    }
}

/// An access control list. Once built it is only read.
#[derive(Debug)]
pub struct Acl {
    rules: Vec<Rule>,
}

impl View for Acl {
    type V = Seq<RuleView>;

    closed spec fn view(&self) -> Seq<RuleView> {
        self.rules@.map_values(|rule: Rule| rule@)
    }
}

impl Acl {
    /// Reads an ACL text.
    pub fn parse(text: &[u8]) -> (res: Result<Acl, AclError>)
        ensures
            match res {
                Ok(acl) => acl_of(text@) == Ok::<Seq<RuleView>, AclError>(acl@),
                Err(e) => acl_of(text@) == Err::<Seq<RuleView>, AclError>(e),
            },
    {
        let lines = split_spans(text, NEWLINE);
        let ghost parts = split(text@, NEWLINE);
        let mut rules: Vec<Rule> = Vec::new();
        let mut i: usize = 0;
        proof {
            assert(parts.take(0) =~= Seq::<Seq<u8>>::empty());
            assert(rules@.map_values(|rule: Rule| rule@) =~= Seq::<RuleView>::empty());
        }
        while i < lines.len()
            invariant
                i <= lines.len(),
                parts == split(text@, NEWLINE),
                spans_locate_split(lines@, text@, NEWLINE),
                rules_of_lines(parts.take(i as int)) == Ok::<Seq<RuleView>, AclError>(
                    rules@.map_values(|rule: Rule| rule@),
                ),
            decreases lines.len() - i,
        {
            let span = lines[i];
            let line = slice_subrange(text, span.start, span.end);
            proof {
                assert(parts.take(i + 1).drop_last() =~= parts.take(i as int));
                assert(parts.take(i + 1).last() == line@);
            }
            let found = word_spans(line, SPACE);
            if !is_ignored_line(line, &found) {
                match Rule::read(line, &found) {
                    Some(rule) => {
                        proof {
                            assert(rules@.push(rule).map_values(|rule: Rule| rule@)
                                =~= rules@.map_values(|rule: Rule| rule@).push(rule@));
                        }
                        rules.push(rule);
                    },
                    None => {
                        proof {
                            lemma_rules_of_lines_fails(parts, i + 1);
                        }
                        return Err(AclError::Parse);
                    },
                }
            }
            i += 1;
        }
        proof {
            assert(parts.take(lines.len() as int) =~= parts);
        }
        Ok(Acl { rules })
    }

    /// Decides whether a token of type `token_type` may perform the operation.
    pub fn evaluate(&self, token_type: TokenType, method: &[u8], path: &[u8]) -> (granted: bool)
        ensures
            granted == decision(self@, token_type, method@, path@),
    {
        let pieces = split_spans(path, SLASH);
        let mut i: usize = 0;
        while i < self.rules.len()
            invariant
                i <= self.rules.len(),
                spans_locate_split(pieces@, path@, SLASH),
                forall|j: int| 0 <= j < i ==> !rule_matches(#[trigger] self@[j], method@, path@),
            decreases self.rules.len() - i,
        {
            assert(self@[i as int] == self.rules[i as int]@);
            if self.rules[i].matches_pieces(method, path, &pieces) {
                proof {
                    assert(is_first_match(self@, i as int, method@, path@));
                    lemma_first_match_decides(self@, i as int, token_type, method@, path@);
                }
                return self.rules[i].allowed.has(token_type);
            }
            i += 1;
        }
        false
    }

    /// The number of rules.
    pub fn len(&self) -> (n: usize)
        ensures
            n == self@.len(),
    {
        self.rules.len()
    }
}

/// Once a prefix of the lines is refused, so is the whole text.
pub proof fn lemma_rules_of_lines_fails(lines: Seq<Seq<u8>>, n: int)
    requires
        0 <= n <= lines.len(),
        rules_of_lines(lines.take(n)) is Err,
    ensures
        rules_of_lines(lines) == rules_of_lines(lines.take(n)),
    decreases lines.len(),
{
    if n == lines.len() {
        assert(lines.take(n) =~= lines);
    } else {
        assert(lines.drop_last().take(n) =~= lines.take(n));
        lemma_rules_of_lines_fails(lines.drop_last(), n);
    }
}

} // verus!
