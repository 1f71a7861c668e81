//! Heading identifiers: slugs, explicit ids, link aliases and deduplication.

use crate::markdown::{parse_markdown, EventKind, EventView, MdEvent, TagKind};
use crate::text::{decimal, ends_with_char, push_decimal, text_of, trimmed, white_space};
use vstd::prelude::*;
use vstd::relations::injective_on;
use vstd::set_lib::{lemma_int_range, lemma_len_subset, lemma_map_size, set_int_range};
use vstd::string::StrSliceExecFns;

verus! {

/// Whether a character is alphabetic or numeric in the sense of Unicode.
pub uninterp spec fn alphanumeric(ch: char) -> bool;

/// The lower-case form of a character in the sense of Unicode, which may
/// take more than one character.
pub uninterp spec fn lowercase(ch: char) -> Seq<char>;

/// `char::is_alphanumeric` tells whether the character is alphabetic or
/// numeric in the sense of Unicode.
pub assume_specification[ char::is_alphanumeric ](ch: char) -> (r: bool)
    ensures
        r == alphanumeric(ch),
;

/// `char::to_lowercase` yields the characters of the lower-case form; here
/// they are appended to `out`.
#[verifier::external_body]
fn push_lowercase(out: &mut String, ch: char)
    ensures
        final(out)@ == old(out)@ + lowercase(ch),
{
    out.extend(ch.to_lowercase());
}

/// The alphanumeric runs of a text in lower case, joined by `joiner`
/// wherever a character of `breaks` stood between two of them, together
/// with whether such a character has been seen since the last run. Other
/// characters are dropped without ending a run.
pub open spec fn joined_words(text: Seq<char>, joiner: char, breaks: spec_fn(char) -> bool) -> (
    Seq<char>,
    bool,
)
    decreases text.len(),
{
    if text.len() == 0 {
        (Seq::empty(), false)
    } else {
        let (words, pending) = joined_words(text.drop_last(), joiner, breaks);
        let ch = text.last();
        if alphanumeric(ch) {
            if pending && words.len() > 0 {
                (words.push(joiner) + lowercase(ch), false)
            } else {
                (words + lowercase(ch), false)
            }
        } else if breaks(ch) {
            (words, true)
        } else {
            (words, pending)
        }
    }
}

/// The characters that separate the words of a slug.
pub open spec fn is_slug_break(ch: char) -> bool {
    white_space(ch) || ch == '-' || ch == '_'
}

/// The slug of a heading text: its lower-case alphanumeric words joined by
/// `-`, or `section` where it has none.
pub open spec fn slug_of(text: Seq<char>) -> Seq<char> {
    let words = joined_words(text, '-', |ch: char| is_slug_break(ch)).0;
    if words.len() == 0 {
        "section"@
    } else {
        words
    }
}

/// The key under which a heading text and a link text meet: the lower-case
/// alphanumeric words joined by single spaces.
pub open spec fn lookup_key(text: Seq<char>) -> Seq<char> {
    joined_words(text, ' ', |ch: char| true).0
}

/// The slug of a heading text.
pub fn slugify_heading(text: &str) -> (slug: String)
    ensures
        slug@ == slug_of(text@),
{
    let mut slug = String::new();
    let mut pending_dash = false;
    let ghost breaks = |ch: char| is_slug_break(ch);

    for ch in it: text.chars()
        invariant
            it.seq() == text@,
            breaks == (|ch: char| is_slug_break(ch)),
            (slug@, pending_dash) == joined_words(text@.take(it.index() as int), '-', breaks),
    {
        proof {
            let k = it.index() as int;
            assert(text@.take(k + 1).drop_last() == text@.take(k));
            assert(text@.take(k + 1).last() == ch);
        }
        if ch.is_alphanumeric() {
            if pending_dash && !slug.as_str().is_empty() {
                slug.push('-');
            }
            pending_dash = false;
            push_lowercase(&mut slug, ch);
        } else if ch.is_whitespace() || ch == '-' || ch == '_' {
            pending_dash = true;
        }
    }
    proof {
        assert(text@.take(text@.len() as int) == text@);
    }

    if slug.as_str().is_empty() {
        "section".to_owned()
    } else {
        slug
    }
}

/// The key under which a heading text or a link text is looked up.
pub fn normalize_heading_lookup_text(text: &str) -> (output: String)
    ensures
        output@ == lookup_key(text@),
{
    let mut output = String::new();
    let mut pending_space = false;
    let ghost breaks = |ch: char| true;

    for ch in it: text.chars()
        invariant
            it.seq() == text@,
            breaks == (|ch: char| true),
            (output@, pending_space) == joined_words(text@.take(it.index() as int), ' ', breaks),
    {
        proof {
            let k = it.index() as int;
            assert(text@.take(k + 1).drop_last() == text@.take(k));
            assert(text@.take(k + 1).last() == ch);
        }
        if ch.is_alphanumeric() {
            if pending_space && !output.as_str().is_empty() {
                output.push(' ');
            }
            pending_space = false;
            push_lowercase(&mut output, ch);
        } else {
            pending_space = true;
        }
    }
    proof {
        assert(text@.take(text@.len() as int) == text@);
    }
    output
}

/// An explicit heading id as it counts: trimmed, and absent where nothing
/// is left.
pub open spec fn explicit_id(raw: Seq<char>) -> Option<Seq<char>> {
    if trimmed(raw).len() == 0 {
        None
    } else {
        Some(trimmed(raw))
    }
}

/// An explicit heading id as it counts, if one is given and not blank.
pub fn normalize_heading_id(id: Option<&str>) -> (normal: Option<String>)
    ensures
        text_of(normal) == match id {
            Some(raw) => explicit_id(raw@),
            None => None,
        },
{
    match id {
        None => None,
        Some(raw) => {
            let trimmed = raw.trim();
            if trimmed.is_empty() {
                None
            } else {
                Some(trimmed.to_owned())
            }
        },
    }
}

/// The fragment that a link into the same document points at: what follows
/// the `#` that leads the trimmed destination, trimmed again, if anything
/// is left.
pub open spec fn fragment_of(dest: Seq<char>) -> Option<Seq<char>> {
    let target = trimmed(dest);
    if target.len() > 0 && target.first() == '#' && trimmed(target.drop_first()).len() > 0 {
        Some(trimmed(target.drop_first()))
    } else {
        None
    }
}

/// The fragment that a link points at, if it points into the same document.
pub fn internal_fragment_id(dest: &str) -> (fragment: Option<String>)
    ensures
        text_of(fragment) == fragment_of(dest@),
{
    let target = dest.trim();
    let len = target.unicode_len();
    if len == 0 || target.get_char(0) != '#' {
        return None;
    }
    let rest = target.substring_char(1, len);
    proof {
        assert(rest@ == target@.drop_first());
    }
    let fragment = rest.trim();
    if fragment.is_empty() {
        None
    } else {
        Some(fragment.to_owned())
    }
}

/// The id tried for `base` with the given suffix: `base-N`.
pub open spec fn candidate(base: Seq<char>, suffix: nat) -> Seq<char> {
    base.push('-') + decimal(suffix)
}

/// Distinct numbers have distinct decimal forms.
pub proof fn lemma_decimal_injective(a: nat, b: nat)
    requires
        decimal(a) == decimal(b),
    ensures
        a == b,
    decreases a,
{
    if a >= 10 && b >= 10 {
        assert(decimal(a).drop_last() == decimal(a / 10));
        assert(decimal(b).drop_last() == decimal(b / 10));
        assert(decimal(a).last() == crate::text::digit_char(a % 10));
        assert(decimal(b).last() == crate::text::digit_char(b % 10));
        lemma_decimal_injective(a / 10, b / 10);
    } else if a >= 10 {
        lemma_decimal_nonempty(a / 10);
        assert(decimal(b).len() == 1);
    } else if b >= 10 {
        lemma_decimal_nonempty(b / 10);
        assert(decimal(a).len() == 1);
    } else {
        assert(decimal(a)[0] == crate::text::digit_char(a));
        assert(decimal(b)[0] == crate::text::digit_char(b));
    }
}

proof fn lemma_decimal_nonempty(n: nat)
    ensures
        decimal(n).len() >= 1,
    decreases n,
{
    if n >= 10 {
        lemma_decimal_nonempty(n / 10);
    }
}

/// Distinct suffixes give distinct candidates for one base.
pub proof fn lemma_candidate_injective(base: Seq<char>, a: nat, b: nat)
    requires
        candidate(base, a) == candidate(base, b),
    ensures
        a == b,
{
    let skip = base.len() + 1;
    assert(candidate(base, a).skip(skip as int) =~= decimal(a));
    assert(candidate(base, b).skip(skip as int) =~= decimal(b));
    lemma_decimal_injective(a, b);
}

/// A finite set that holds the candidates of a base for every suffix from 1
/// to `count` holds at least `count` ids.
pub proof fn lemma_candidates_fill(used: Set<Seq<char>>, base: Seq<char>, count: nat)
    requires
        used.finite(),
        forall|n: nat| 1 <= n <= count ==> used.contains(#[trigger] candidate(base, n)),
    ensures
        count <= used.len(),
{
    let numbers = set_int_range(1, count as int + 1);
    let make = |n: int| candidate(base, n as nat);
    let made = numbers.map(make);
    lemma_int_range(1, count as int + 1);
    assert(injective_on(make, numbers)) by {
        assert forall|a: int, b: int|
            numbers.contains(a) && numbers.contains(b) && #[trigger] make(a) == #[trigger] make(
                b,
            ) implies a == b by {
            lemma_candidate_injective(base, a as nat, b as nat);
        }
    }
    lemma_map_size(numbers, made, make);
    assert(made.subset_of(used)) by {
        assert forall|id: Seq<char>| made.contains(id) implies used.contains(id) by {
            let n = choose|n: int| numbers.contains(n) && make(n) == id;
            assert(id == candidate(base, n as nat));
        }
    }
    lemma_len_subset(made, used);
}

/// Whether `suffix` is the first from `from` on whose candidate is free.
pub open spec fn is_first_free(used: Set<Seq<char>>, base: Seq<char>, from: nat, suffix: nat) -> bool {
    &&& from <= suffix
    &&& !used.contains(candidate(base, suffix))
    &&& forall|n: nat| from <= n < suffix ==> used.contains(#[trigger] candidate(base, n))
}

/// The first suffix from `from` on whose candidate is free.
pub open spec fn first_free(used: Set<Seq<char>>, base: Seq<char>, from: nat) -> nat {
    choose|suffix: nat| is_first_free(used, base, from, suffix)
}

/// There is at most one first free suffix.
pub proof fn lemma_first_free_unique(used: Set<Seq<char>>, base: Seq<char>, from: nat, suffix: nat)
    requires
        is_first_free(used, base, from, suffix),
    ensures
        first_free(used, base, from) == suffix,
{
    let other = first_free(used, base, from);
    assert(is_first_free(used, base, from, other));
    if other < suffix {
        assert(used.contains(candidate(base, other)));
    } else if suffix < other {
        assert(used.contains(candidate(base, suffix)));
    }
}

/// The ids that are taken, and for each base the highest suffix known to be
/// taken with it.
pub struct RegistryView {
    pub used: Set<Seq<char>>,
    pub suffixes: Map<Seq<char>, nat>,
}

impl RegistryView {
    /// The highest suffix of `base` known to be taken; 0 where none is.
    pub open spec fn suffix_of(self, base: Seq<char>) -> nat {
        if self.suffixes.contains_key(base) {
            self.suffixes[base]
        } else {
            0
        }
    }

    /// The id given out for `base`, and the registry after it: `base`
    /// itself where it is free, else `base-N` for the first free `N` above
    /// the suffixes of `base` known to be taken.
    pub open spec fn assign(self, base: Seq<char>) -> (Seq<char>, RegistryView) {
        if !self.used.contains(base) {
            (base, RegistryView { used: self.used.insert(base), suffixes: self.suffixes })
        } else {
            let suffix = first_free(self.used, base, self.suffix_of(base) + 1);
            let id = candidate(base, suffix);
            (
                id,
                RegistryView {
                    used: self.used.insert(id),
                    suffixes: self.suffixes.insert(base, suffix),
                },
            )
        }
    }

    /// The registry that has given out nothing.
    pub open spec fn empty() -> RegistryView {
        RegistryView { used: Set::empty(), suffixes: Map::empty() }
    }
}

/// The ids given out so far, and for each base the highest suffix that has
/// been given out or found taken.
pub struct IdRegistry {
    used: Vec<String>,
    suffixes: Vec<(String, usize)>,
}

impl View for IdRegistry {
    type V = RegistryView;

    closed spec fn view(&self) -> RegistryView {
        RegistryView {
            used: self.used.deep_view().to_set(),
            suffixes: Map::new(
                |base: Seq<char>| self.has_base(base),
                |base: Seq<char>| self.suffixes@[self.slot_of(base)].1 as nat,
            ),
        }
    }
}

impl IdRegistry {
    spec fn has_base(self, base: Seq<char>) -> bool {
        exists|i: int| 0 <= i < self.suffixes@.len() && (#[trigger] self.suffixes@[i]).0@ == base
    }

    spec fn slot_of(self, base: Seq<char>) -> int {
        choose|i: int| 0 <= i < self.suffixes@.len() && (#[trigger] self.suffixes@[i]).0@ == base
    }

    /// How many ids have been given out.
    pub closed spec fn count(self) -> nat {
        self.used@.len()
    }

    /// Every base is listed once, and every candidate of a base up to its
    /// recorded suffix is taken.
    pub closed spec fn wf(self) -> bool {
        &&& forall|i: int, j: int|
            0 <= i < j < self.suffixes@.len() ==> (#[trigger] self.suffixes@[i]).0@ != (
            #[trigger] self.suffixes@[j]).0@
        &&& forall|i: int, n: nat|
            0 <= i < self.suffixes@.len() && 1 <= n <= self.suffixes@[i].1 ==> self@.used.contains(
                #[trigger] candidate((#[trigger] self.suffixes@[i]).0@, n),
            )
    }

    /// In a well-formed registry the ids are finitely many, no more than
    /// were given out, and every candidate of a base up to its recorded
    /// suffix is among them.
    pub proof fn lemma_suffix_taken(self, base: Seq<char>)
        requires
            self.wf(),
        ensures
            self@.used.finite(),
            self@.used.len() <= self.count(),
            self@.suffix_of(base) <= self@.used.len(),
            forall|n: nat|
                1 <= n <= self@.suffix_of(base) ==> self@.used.contains(#[trigger] candidate(base, n)),
    {
        self.used.deep_view().lemma_cardinality_of_set();
        vstd::seq_lib::seq_to_set_is_finite(self.used.deep_view());
        if self.has_base(base) {
            self.lemma_suffix_at(self.slot_of(base));
        }
        lemma_candidates_fill(self@.used, base, self@.suffix_of(base));
    }

    proof fn lemma_suffix_at(self, i: int)
        requires
            self.wf(),
            0 <= i < self.suffixes@.len(),
        ensures
            self.has_base(self.suffixes@[i].0@),
            self.slot_of(self.suffixes@[i].0@) == i,
            self@.suffix_of(self.suffixes@[i].0@) == self.suffixes@[i].1,
    {
        let base = self.suffixes@[i].0@;
        let j = self.slot_of(base);
        assert(j == i);
    }

    /// A registry that has given out nothing.
    pub fn new() -> (registry: IdRegistry)
        ensures
            registry.wf(),
            registry@ == RegistryView::empty(),
            registry.count() == 0,
    {
        let registry = IdRegistry { used: Vec::new(), suffixes: Vec::new() };
        proof {
            assert(registry.used.deep_view() =~= Seq::<Seq<char>>::empty());
            assert(registry@.used =~= Set::<Seq<char>>::empty());
            assert(registry@.suffixes =~= Map::<Seq<char>, nat>::empty());
        }
        registry
    }

    /// Tells whether an id is taken.
    pub fn is_used(&self, id: &String) -> (taken: bool)
        ensures
            taken == self@.used.contains(id@),
    {
        let mut i: usize = 0;
        while i < self.used.len()
            invariant
                i <= self.used.len(),
                forall|j: int| 0 <= j < i ==> self.used.deep_view()[j] != id@,
            decreases self.used.len() - i,
        {
            if self.used[i] == *id {
                assert(self.used.deep_view()[i as int] == id@);
                return true;
            }
            i += 1;
        }
        false
    }

    fn suffix_index(&self, base: &String) -> (found: Option<usize>)
        ensures
            match found {
                Some(i) => i < self.suffixes@.len() && self.suffixes@[i as int].0@ == base@,
                None => !self.has_base(base@),
            },
    {
        let mut i: usize = 0;
        while i < self.suffixes.len()
            invariant
                i <= self.suffixes.len(),
                forall|j: int| 0 <= j < i ==> (#[trigger] self.suffixes@[j]).0@ != base@,
            decreases self.suffixes.len() - i,
        {
            if self.suffixes[i].0 == *base {
                return Some(i);
            }
            i += 1;
        }
        None
    }
}

/// Gives out an id for `base` that has not been given out before: `base`
/// itself where it is free, else `base-N` for the first free `N` above the
/// suffixes of `base` that are known to be taken.
pub fn unique_heading_id(base: String, registry: &mut IdRegistry) -> (id: String)
    requires
        old(registry).wf(),
        old(registry).count() < usize::MAX,
    ensures
        final(registry).wf(),
        final(registry).count() == old(registry).count() + 1,
        (id@, final(registry)@) == old(registry)@.assign(base@),
        !old(registry)@.used.contains(id@),
{
    let ghost before = *registry;
    if !registry.is_used(&base) {
        registry.used.push(base.clone());
        proof {
            assert(registry.used.deep_view() =~= before.used.deep_view().push(base@));
            before.used.deep_view().lemma_push_to_set_commute(base@);
            assert(registry.suffixes == before.suffixes);
            assert(registry@.suffixes =~= before@.suffixes);
        }
        return base;
    }
    let found = registry.suffix_index(&base);
    let stored: usize = match found {
        Some(i) => registry.suffixes[i].1,
        None => 0,
    };
    proof {
        before.lemma_suffix_taken(base@);
        if let Some(i) = found {
            before.lemma_suffix_at(i as int);
        }
        assert(stored == before@.suffix_of(base@));
    }
    let mut suffix: usize = stored + 1;
    loop
        invariant
            *registry == before,
            before == *old(registry),
            before@.used.contains(base@),
            before.wf(),
            before.count() < usize::MAX,
            before@.used.finite(),
            before@.used.len() <= before.count(),
            stored == before@.suffix_of(base@),
            stored < suffix <= before@.used.len() + 1,
            forall|n: nat| 1 <= n < suffix ==> before@.used.contains(#[trigger] candidate(base@, n)),
            match found {
                Some(i) => i < before.suffixes@.len() && before.suffixes@[i as int].0@ == base@,
                None => !before.has_base(base@),
            },
        decreases before@.used.len() + 1 - suffix,
    {
        let mut id = base.clone();
        id.push('-');
        push_decimal(&mut id, suffix as u64);
        assert(id@ == candidate(base@, suffix as nat));
        if !registry.is_used(&id) {
            registry.used.push(id.clone());
            match found {
                Some(i) => {
                    registry.suffixes.set(i, (base, suffix));
                },
                None => {
                    registry.suffixes.push((base, suffix));
                },
            }
            proof {
                assert(registry.used@.len() == before.used@.len() + 1);
                assert(registry.used.deep_view() =~= before.used.deep_view().push(id@));
                before.used.deep_view().lemma_push_to_set_commute(id@);
                assert(registry@.used == before@.used.insert(id@));
                let slot = match found {
                    Some(i) => i as int,
                    None => before.suffixes@.len() as int,
                };
                assert(registry.suffixes@[slot].0@ == base@);
                assert(forall|j: int|
                    0 <= j < before.suffixes@.len() && j != slot ==> registry.suffixes@[j]
                        == before.suffixes@[j]);
                assert(registry.wf()) by {
                    assert forall|i: int, n: nat|
                        0 <= i < registry.suffixes@.len() && 1 <= n
                            <= registry.suffixes@[i].1 implies registry@.used.contains(
                        #[trigger] candidate((#[trigger] registry.suffixes@[i]).0@, n),
                    ) by {
                        if i != slot {
                            assert(before.suffixes@[i] == registry.suffixes@[i]);
                            assert(before@.used.contains(candidate(before.suffixes@[i].0@, n)));
                        } else if n < suffix {
                            assert(before@.used.contains(candidate(base@, n)));
                        } else {
                            assert(candidate(base@, n) == id@);
                        }
                    }
                }
                registry.lemma_suffix_at(slot);
                assert(is_first_free(before@.used, base@, stored as nat + 1, suffix as nat));
                lemma_first_free_unique(before@.used, base@, stored as nat + 1, suffix as nat);
                assert(registry@.suffixes =~= before@.suffixes.insert(base@, suffix as nat)) by {
                    assert forall|other: Seq<char>| other != base@ implies (registry.has_base(other)
                        == before.has_base(other) && (before.has_base(other)
                        ==> registry@.suffixes[other] == before@.suffixes[other])) by {
                        if before.has_base(other) {
                            let i = before.slot_of(other);
                            before.lemma_suffix_at(i);
                            assert(registry.suffixes@[i] == before.suffixes@[i]);
                            registry.lemma_suffix_at(i);
                        } else if registry.has_base(other) {
                            let i = registry.slot_of(other);
                            assert(i != slot);
                            assert(registry.suffixes@[i] == before.suffixes@[i]);
                        }
                    }
                }
            }
            return id;
        }
        proof {
            lemma_candidates_fill(before@.used, base@, suffix as nat);
        }
        suffix += 1;
    }
}

/// Whether events of this kind add their payload to the text around them.
pub open spec fn carries_text(kind: EventKind) -> bool {
    kind == EventKind::Text || kind == EventKind::Code || kind == EventKind::Html || kind
        == EventKind::InlineHtml || kind == EventKind::InlineMath || kind == EventKind::DisplayMath
        || kind == EventKind::FootnoteReference
}

/// Whether events of this kind stand for a line break inside a text.
pub open spec fn is_break(kind: EventKind) -> bool {
    kind == EventKind::SoftBreak || kind == EventKind::HardBreak
}

/// A text after a line break: one space more, unless it ends in one.
pub open spec fn with_break(text: Seq<char>) -> Seq<char> {
    if text.len() > 0 && text.last() == ' ' {
        text
    } else {
        text.push(' ')
    }
}

/// Whether an event opens (`Start`) or closes (`End`) the given element.
pub open spec fn is_tag(event: EventView, kind: EventKind, tag: TagKind) -> bool {
    event.kind == kind && event.tag == Some(tag)
}

/// The destination or label at the start of an element; empty where it has none.
pub open spec fn label_or_empty(event: EventView) -> Seq<char> {
    match event.label {
        Some(label) => label,
        None => Seq::empty(),
    }
}

/// Aliases in document order: the lookup key of a link's text with the
/// fragment the link points at.
pub type Aliases = Seq<(Seq<char>, Seq<char>)>;

/// Where the scan for aliases stands: the aliases found, the fragment of
/// the link that is open, and the text gathered inside it.
pub struct AliasScan {
    pub aliases: Aliases,
    pub fragment: Option<Seq<char>>,
    pub text: Seq<char>,
}

/// The scan after one more event.
pub open spec fn alias_step(scan: AliasScan, event: EventView) -> AliasScan {
    if is_tag(event, EventKind::Start, TagKind::Link) {
        AliasScan { aliases: scan.aliases, fragment: fragment_of(label_or_empty(event)), text: Seq::empty() }
    } else if is_tag(event, EventKind::End, TagKind::Link) {
        AliasScan {
            aliases: if scan.fragment is Some && lookup_key(scan.text).len() > 0 {
                scan.aliases.push((lookup_key(scan.text), scan.fragment->0))
            } else {
                scan.aliases
            },
            fragment: None,
            text: Seq::empty(),
        }
    } else if carries_text(event.kind) && scan.fragment is Some {
        AliasScan { aliases: scan.aliases, fragment: scan.fragment, text: scan.text + event.text }
    } else if is_break(event.kind) && scan.fragment is Some {
        AliasScan { aliases: scan.aliases, fragment: scan.fragment, text: with_break(scan.text) }
    } else {
        scan
    }
}

/// The scan after all of `events`.
pub open spec fn alias_scan(events: Seq<(EventView, usize)>) -> AliasScan
    decreases events.len(),
{
    if events.len() == 0 {
        AliasScan { aliases: Seq::empty(), fragment: None, text: Seq::empty() }
    } else {
        alias_step(alias_scan(events.drop_last()), events.last().0)
    }
}

/// The aliases that the links into the same document offer: for every
/// such link with a non-empty text, its lookup key and its fragment.
pub open spec fn heading_aliases(events: Seq<(EventView, usize)>) -> Aliases {
    alias_scan(events).aliases
}

/// Gathers the aliases that the links of a parsed document offer.
pub fn aliases_from_events(events: &[(MdEvent, usize)]) -> (aliases: Vec<(String, String)>)
    ensures
        aliases.deep_view() == heading_aliases(events.deep_view()),
{
    let mut aliases: Vec<(String, String)> = Vec::new();
    let mut active_fragment: Option<String> = None;
    let mut active_text = String::new();
    let ghost all = events.deep_view();
    proof {
        assert(aliases.deep_view() =~= Seq::empty());
        assert(all.take(0).len() == 0);
    }

    let mut i: usize = 0;
    while i < events.len()
        invariant
            i <= events.len(),
            all == events.deep_view(),
            alias_scan(all.take(i as int)) == (AliasScan {
                aliases: aliases.deep_view(),
                fragment: text_of(active_fragment),
                text: active_text@,
            }),
        decreases events.len() - i,
    {
        let event = &events[i].0;
        proof {
            assert(all.take(i + 1).drop_last() == all.take(i as int));
            assert(all.take(i + 1).last().0 == event@);
        }
        let ghost scan = alias_scan(all.take(i as int));
        match (event.kind, event.tag) {
            (EventKind::Start, Some(TagKind::Link)) => {
                active_fragment = match &event.label {
                    Some(dest) => internal_fragment_id(dest.as_str()),
                    None => internal_fragment_id(""),
                };
                active_text = String::new();
                proof {
                    reveal_strlit("");
                    assert(""@ =~= Seq::<char>::empty());
                }
            },
            (EventKind::End, Some(TagKind::Link)) => {
                if let Some(fragment) = active_fragment {
                    let key = normalize_heading_lookup_text(active_text.as_str());
                    if !key.as_str().is_empty() {
                        aliases.push((key, fragment));
                        proof {
                            assert(aliases.deep_view() =~= scan.aliases.push(
                                (lookup_key(scan.text), scan.fragment->0),
                            ));
                        }
                    }
                }
                active_fragment = None;
                active_text = String::new();
            },
            (EventKind::Text, _)
            | (EventKind::Code, _)
            | (EventKind::Html, _)
            | (EventKind::InlineHtml, _)
            | (EventKind::InlineMath, _)
            | (EventKind::DisplayMath, _)
            | (EventKind::FootnoteReference, _) => {
                if active_fragment.is_some() {
                    active_text.push_str(event.text.as_str());
                }
            },
            (EventKind::SoftBreak, _) | (EventKind::HardBreak, _) => {
                if active_fragment.is_some() && !ends_with_char(active_text.as_str(), ' ') {
                    active_text.push(' ');
                }
            },
            _ => {},
        }
        i += 1;
    }
    proof {
        assert(all.take(events.len() as int) == all);
    }
    aliases
}

/// Parses a text and gathers the aliases that its links offer.
pub fn collect_internal_heading_aliases(markdown: &str, options: u32) -> (aliases: Vec<(String, String)>)
    ensures
        aliases.deep_view() == heading_aliases(crate::markdown::markdown_events(markdown@, options)),
{
    let events = parse_markdown(markdown, options);
    aliases_from_events(events.as_slice())
}

/// The place of the first alias under `key`, if there is one.
pub open spec fn alias_position(aliases: Aliases, key: Seq<char>) -> Option<int>
    decreases aliases.len(),
{
    if aliases.len() == 0 {
        None
    } else if aliases.first().0 == key {
        Some(0)
    } else {
        match alias_position(aliases.drop_first(), key) {
            Some(i) => Some(i + 1),
            None => None,
        }
    }
}

/// Where no alias before place `i` is under `key`, the first one is at
/// `i` if that is under `key`, and there is none if `i` is the end.
pub proof fn lemma_alias_position(aliases: Aliases, key: Seq<char>, i: int)
    requires
        0 <= i <= aliases.len(),
        forall|j: int| 0 <= j < i ==> (#[trigger] aliases[j]).0 != key,
        i < aliases.len() ==> aliases[i].0 == key,
    ensures
        alias_position(aliases, key) == if i < aliases.len() {
            Some(i)
        } else {
            None
        },
    decreases aliases.len(),
{
    if aliases.len() > 0 && i > 0 {
        let rest = aliases.drop_first();
        assert(aliases[0].0 != key);
        assert forall|j: int| 0 <= j < i - 1 implies (#[trigger] rest[j]).0 != key by {
            assert(rest[j] == aliases[j + 1]);
        }
        lemma_alias_position(rest, key, i - 1);
    }
}

/// The alias that a heading text takes, and the aliases left: the first
/// one under the text's lookup key, unless that key is empty.
pub open spec fn take_alias(aliases: Aliases, heading_text: Seq<char>) -> (Option<Seq<char>>, Aliases) {
    let key = lookup_key(heading_text);
    if key.len() == 0 {
        (None, aliases)
    } else {
        match alias_position(aliases, key) {
            Some(i) => (Some(aliases[i].1), aliases.remove(i)),
            None => (None, aliases),
        }
    }
}

/// Takes the first alias that is left for a heading text.
pub fn take_heading_alias(aliases: &mut Vec<(String, String)>, heading_text: &str) -> (alias: Option<
    String,
>)
    ensures
        (text_of(alias), final(aliases).deep_view()) == take_alias(
            old(aliases).deep_view(),
            heading_text@,
        ),
{
    let key = normalize_heading_lookup_text(heading_text);
    if key.as_str().is_empty() {
        return None;
    }
    let ghost before = aliases.deep_view();
    let mut i: usize = 0;
    while i < aliases.len()
        invariant
            i <= aliases.len(),
            before == aliases.deep_view(),
            *aliases == *old(aliases),
            key@ == lookup_key(heading_text@),
            key@.len() > 0,
            forall|j: int| 0 <= j < i ==> (#[trigger] before[j]).0 != key@,
        decreases aliases.len() - i,
    {
        if aliases[i].0 == key {
            proof {
                assert(before[i as int].0 == key@);
                lemma_alias_position(before, key@, i as int);
            }
            let (_, fragment) = aliases.remove(i);
            proof {
                assert(aliases.deep_view() =~= before.remove(i as int));
                assert(fragment@ == before[i as int].1);
            }
            return Some(fragment);
        }
        proof {
            assert(before[i as int].0 != key@);
        }
        i += 1;
    }
    proof {
        lemma_alias_position(before, key@, before.len() as int);
    }
    None
}

/// Where the scan for heading ids stands: the ids given out, the registry
/// that gave them, the aliases not yet taken, and, inside a heading, its
/// text so far and its explicit id.
pub struct HeadingScan {
    pub ids: Seq<Seq<char>>,
    pub registry: RegistryView,
    pub aliases: Aliases,
    pub text: Option<Seq<char>>,
    pub explicit: Option<Seq<char>>,
}

/// The scan at the end of a heading: the heading gets its explicit id, else
/// the alias under its text, else its slug, made unique by the registry.
pub open spec fn close_heading(scan: HeadingScan) -> HeadingScan {
    let text = match scan.text {
        Some(text) => text,
        None => Seq::empty(),
    };
    let (alias, rest) = if scan.explicit is Some {
        (None, scan.aliases)
    } else {
        take_alias(scan.aliases, text)
    };
    let base = if scan.explicit is Some {
        scan.explicit->0
    } else if alias is Some {
        alias->0
    } else {
        slug_of(text)
    };
    let (id, registry) = scan.registry.assign(base);
    HeadingScan { ids: scan.ids.push(id), registry, aliases: rest, text: None, explicit: None }
}

/// The scan after one more event.
pub open spec fn heading_step(scan: HeadingScan, event: EventView) -> HeadingScan {
    if is_tag(event, EventKind::Start, TagKind::Heading) {
        HeadingScan {
            text: Some(Seq::empty()),
            explicit: match event.label {
                Some(raw) => explicit_id(raw),
                None => None,
            },
            ..scan
        }
    } else if is_tag(event, EventKind::End, TagKind::Heading) {
        close_heading(scan)
    } else if carries_text(event.kind) && scan.text is Some {
        HeadingScan { text: Some(scan.text->0 + event.text), ..scan }
    } else if is_break(event.kind) && scan.text is Some {
        HeadingScan { text: Some(with_break(scan.text->0)), ..scan }
    } else {
        scan
    }
}

/// The scan after all of `events`, begun with the given aliases.
pub open spec fn heading_scan(events: Seq<(EventView, usize)>, aliases: Aliases) -> HeadingScan
    decreases events.len(),
{
    if events.len() == 0 {
        HeadingScan {
            ids: Seq::empty(),
            registry: RegistryView::empty(),
            aliases,
            text: None,
            explicit: None,
        }
    } else {
        heading_step(heading_scan(events.drop_last(), aliases), events.last().0)
    }
}

/// The ids of the headings of a document, in document order.
pub open spec fn heading_ids(events: Seq<(EventView, usize)>) -> Seq<Seq<char>> {
    heading_scan(events, heading_aliases(events)).ids
}

/// The ids of a parsed document never repeat.
pub proof fn lemma_heading_ids_distinct(events: Seq<(EventView, usize)>, aliases: Aliases)
    ensures
        heading_scan(events, aliases).ids.no_duplicates(),
        heading_scan(events, aliases).ids.to_set() == heading_scan(events, aliases).registry.used,
        heading_scan(events, aliases).registry.used.finite(),
    decreases events.len(),
{
    broadcast use Seq::lemma_push_to_set_commute;

    if events.len() == 0 {
        assert(Seq::<Seq<char>>::empty().to_set() =~= Set::empty());
    } else {
        lemma_heading_ids_distinct(events.drop_last(), aliases);
        let scan = heading_scan(events.drop_last(), aliases);
        if is_tag(events.last().0, EventKind::End, TagKind::Heading) {
            let after = close_heading(scan);
            let id = after.ids.last();
            lemma_assign_is_fresh(scan.registry, after.ids.last(), after.registry);
            assert(after.ids.drop_last() == scan.ids);
            assert(!scan.ids.contains(id));
        }
    }
}

/// What the registry gives out was free before, where the taken ids are
/// finitely many.
pub proof fn lemma_assign_is_fresh(registry: RegistryView, id: Seq<char>, after: RegistryView)
    requires
        registry.used.finite(),
        exists|base: Seq<char>| (id, after) == #[trigger] registry.assign(base),
    ensures
        !registry.used.contains(id),
        after.used == registry.used.insert(id),
{
    let base = choose|base: Seq<char>| (id, after) == #[trigger] registry.assign(base);
    if registry.used.contains(base) {
        let from = registry.suffix_of(base) + 1;
        lemma_some_suffix_free(registry.used, base, from);
    }
}

/// From every suffix on, a finite set of ids leaves some candidate free.
pub proof fn lemma_some_suffix_free(used: Set<Seq<char>>, base: Seq<char>, from: nat)
    requires
        used.finite(),
    ensures
        is_first_free(used, base, from, first_free(used, base, from)),
{
    let bound = from + used.len() + 1;
    if forall|n: nat| from <= n < bound ==> used.contains(#[trigger] candidate(base, n)) {
        let numbers = set_int_range(from as int, bound as int);
        let make = |n: int| candidate(base, n as nat);
        let made = numbers.map(make);
        lemma_int_range(from as int, bound as int);
        assert(injective_on(make, numbers)) by {
            assert forall|a: int, b: int|
                numbers.contains(a) && numbers.contains(b) && #[trigger] make(a) == #[trigger] make(
                    b,
                ) implies a == b by {
                lemma_candidate_injective(base, a as nat, b as nat);
            }
        }
        lemma_map_size(numbers, made, make);
        assert(made.subset_of(used)) by {
            assert forall|id: Seq<char>| made.contains(id) implies used.contains(id) by {
                let n = choose|n: int| numbers.contains(n) && make(n) == id;
                assert(id == candidate(base, n as nat));
            }
        }
        lemma_len_subset(made, used);
        assert(false);
    }
    let free = choose|n: nat| from <= n < bound && !used.contains(#[trigger] candidate(base, n));
    lemma_least_free(used, base, from, free);
}

proof fn lemma_least_free(used: Set<Seq<char>>, base: Seq<char>, from: nat, free: nat)
    requires
        from <= free,
        !used.contains(candidate(base, free)),
    ensures
        is_first_free(used, base, from, first_free(used, base, from)),
    decreases free - from,
{
    if used.contains(candidate(base, from)) {
        lemma_least_free(used, base, from + 1, free);
        let k = first_free(used, base, from + 1);
        assert(is_first_free(used, base, from, k));
    } else {
        assert(is_first_free(used, base, from, from));
    }
}

/// Gives every heading of a parsed document its id, taking aliases from
/// `aliases` as the headings come.
pub fn ids_from_events(events: &[(MdEvent, usize)], aliases: Vec<(String, String)>) -> (ids: Vec<String>)
    ensures
        ids.deep_view() == heading_scan(events.deep_view(), aliases.deep_view()).ids,
{
    let mut ids: Vec<String> = Vec::new();
    let mut registry = IdRegistry::new();
    let mut heading_aliases = aliases;
    let mut heading_text: Option<String> = None;
    let mut explicit_heading_id: Option<String> = None;
    let ghost all = events.deep_view();
    let ghost offered = aliases.deep_view();
    proof {
        assert(ids.deep_view() =~= Seq::empty());
        assert(all.take(0).len() == 0);
    }

    let mut i: usize = 0;
    while i < events.len()
        invariant
            i <= events.len(),
            all == events.deep_view(),
            registry.wf(),
            registry.count() <= i,
            heading_scan(all.take(i as int), offered) == (HeadingScan {
                ids: ids.deep_view(),
                registry: registry@,
                aliases: heading_aliases.deep_view(),
                text: text_of(heading_text),
                explicit: text_of(explicit_heading_id),
            }),
        decreases events.len() - i,
    {
        let event = &events[i].0;
        proof {
            assert(all.take(i + 1).drop_last() == all.take(i as int));
            assert(all.take(i + 1).last().0 == event@);
        }
        let ghost scan = heading_scan(all.take(i as int), offered);
        match (event.kind, event.tag) {
            (EventKind::Start, Some(TagKind::Heading)) => {
                heading_text = Some(String::new());
                explicit_heading_id = match &event.label {
                    Some(raw) => normalize_heading_id(Some(raw.as_str())),
                    None => None,
                };
            },
            (EventKind::End, Some(TagKind::Heading)) => {
                let text = match heading_text {
                    Some(text) => text,
                    None => String::new(),
                };
                let base = if let Some(explicit) = explicit_heading_id {
                    explicit
                } else if let Some(alias) = take_heading_alias(&mut heading_aliases, text.as_str()) {
                    alias
                } else {
                    slugify_heading(text.as_str())
                };
                let ghost ids_before = ids.deep_view();
                let unique = unique_heading_id(base, &mut registry);
                ids.push(unique);
                heading_text = None;
                explicit_heading_id = None;
                proof {
                    assert(ids.deep_view() =~= ids_before.push(unique@));
                }
            },
            (EventKind::Text, _)
            | (EventKind::Code, _)
            | (EventKind::Html, _)
            | (EventKind::InlineHtml, _)
            | (EventKind::InlineMath, _)
            | (EventKind::DisplayMath, _)
            | (EventKind::FootnoteReference, _) => {
                if let Some(mut current) = heading_text {
                    current.push_str(event.text.as_str());
                    heading_text = Some(current);
                }
            },
            (EventKind::SoftBreak, _) | (EventKind::HardBreak, _) => {
                if let Some(mut current) = heading_text {
                    if !ends_with_char(current.as_str(), ' ') {
                        current.push(' ');
                    }
                    heading_text = Some(current);
                }
            },
            _ => {},
        }
        i += 1;
    }
    proof {
        assert(all.take(events.len() as int) == all);
    }
    ids
}

/// Parses a text and gives every heading its id.
pub fn collect_heading_ids(markdown: &str, options: u32) -> (ids: Vec<String>)
    ensures
        ids.deep_view() == heading_ids(crate::markdown::markdown_events(markdown@, options)),
{
    let aliases = collect_internal_heading_aliases(markdown, options);
    let events = parse_markdown(markdown, options);
    ids_from_events(events.as_slice(), aliases)
}

} // verus!
