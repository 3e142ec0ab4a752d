//! Configuration rules of the viewer: pipeline kinds and their names, how the
//! `selection` of a pipeline is resolved, and how a configured selection picks
//! the active entry (fixed, at random, or in rotation).
//!
//! Option payloads that carry floating-point settings stay opaque here: the
//! configurations are generic over the option type `O`.
use vstd::prelude::*;
use crate::text::{chars_of, str_equal, string_from_chars, trim_chars, trim_spec};
use rand::rngs::StdRng;
use rand::seq::IteratorRandom;
use std::sync::Arc;

verus! {

/// A seeded random generator of the `rand` crate, held opaquely.
#[verifier::external_type_specification]
#[verifier::external_body]
pub struct ExStdRng(StdRng);

// ---------------------------------------------------------------------------
// Kinds and their configuration names
// ---------------------------------------------------------------------------

/// The background style drawn around a photo.
#[derive(Debug, Clone, Copy, PartialEq, Eq, PartialOrd, Ord, Structural)]
pub enum MattingKind {
    FixedColor,
    Blur,
    Studio,
    FixedImage,
}

pub open spec fn matting_kind_name(kind: MattingKind) -> Seq<char> {
    match kind {
        MattingKind::FixedColor => "fixed-color"@,
        MattingKind::Blur => "blur"@,
        MattingKind::Studio => "studio"@,
        MattingKind::FixedImage => "fixed-image"@,
    }
}

impl MattingKind {
    /// The name used in the configuration file.
    pub fn as_str(&self) -> (r: &'static str)
        ensures
            r@ == matting_kind_name(*self),
    {
        match self {
            MattingKind::FixedColor => "fixed-color",
            MattingKind::Blur => "blur",
            MattingKind::Studio => "studio",
            MattingKind::FixedImage => "fixed-image",
        }
    }

    /// The kind whose configuration name is `raw`, if any.
    pub fn from_name(raw: &str) -> (r: Option<MattingKind>)
        ensures
            r matches Some(k) ==> matting_kind_name(k) == raw@,
            r is None ==> forall|k: MattingKind| matting_kind_name(k) != raw@,
    {
        if str_equal(raw, "fixed-color") {
            Some(MattingKind::FixedColor)
        } else if str_equal(raw, "blur") {
            Some(MattingKind::Blur)
        } else if str_equal(raw, "studio") {
            Some(MattingKind::Studio)
        } else if str_equal(raw, "fixed-image") {
            Some(MattingKind::FixedImage)
        } else {
            None
        }
    }
}

/// A post-processing effect applied to a loaded photo.
#[derive(Debug, Clone, Copy, PartialEq, Eq, PartialOrd, Ord, Structural)]
pub enum PhotoEffectKind {
    PrintSimulation,
}

pub open spec fn photo_effect_kind_name(kind: PhotoEffectKind) -> Seq<char> {
    match kind {
        PhotoEffectKind::PrintSimulation => "print-simulation"@,
    }
}

impl PhotoEffectKind {
    /// The name used in the configuration file.
    pub fn as_str(&self) -> (r: &'static str)
        ensures
            r@ == photo_effect_kind_name(*self),
    {
        match self {
            PhotoEffectKind::PrintSimulation => "print-simulation",
        }
    }

    /// The kind whose configuration name is `raw`, if any.
    pub fn from_name(raw: &str) -> (r: Option<PhotoEffectKind>)
        ensures
            r matches Some(k) ==> photo_effect_kind_name(k) == raw@,
            r is None ==> forall|k: PhotoEffectKind| photo_effect_kind_name(k) != raw@,
    {
        if str_equal(raw, "print-simulation") {
            Some(PhotoEffectKind::PrintSimulation)
        } else {
            None
        }
    }
}

/// The animation between two successive photos.
#[derive(Debug, Clone, Copy, PartialEq, Eq, PartialOrd, Ord, Structural)]
pub enum TransitionKind {
    Fade,
    Wipe,
    Push,
    EInk,
    Iris,
}

pub open spec fn transition_kind_name(kind: TransitionKind) -> Seq<char> {
    match kind {
        TransitionKind::Fade => "fade"@,
        TransitionKind::Wipe => "wipe"@,
        TransitionKind::Push => "push"@,
        TransitionKind::EInk => "e-ink"@,
        TransitionKind::Iris => "iris"@,
    }
}

/// The number by which the renderer's shader tells the transitions apart.
pub open spec fn transition_kind_index(kind: TransitionKind) -> u32 {
    match kind {
        TransitionKind::Fade => 1,
        TransitionKind::Wipe => 2,
        TransitionKind::Push => 3,
        TransitionKind::EInk => 4,
        TransitionKind::Iris => 5,
    }
}

impl TransitionKind {
    /// The name used in the configuration file.
    pub fn as_str(&self) -> (r: &'static str)
        ensures
            r@ == transition_kind_name(*self),
    {
        match self {
            TransitionKind::Fade => "fade",
            TransitionKind::Wipe => "wipe",
            TransitionKind::Push => "push",
            TransitionKind::EInk => "e-ink",
            TransitionKind::Iris => "iris",
        }
    }

    /// The shader's number for this transition, from 1 to 5.
    pub fn as_index(&self) -> (r: u32)
        ensures
            r == transition_kind_index(*self),
            1 <= r <= 5,
    {
        match self {
            TransitionKind::Fade => 1,
            TransitionKind::Wipe => 2,
            TransitionKind::Push => 3,
            TransitionKind::EInk => 4,
            TransitionKind::Iris => 5,
        }
    }

    /// The kind whose configuration name is `raw`, if any.
    pub fn from_name(raw: &str) -> (r: Option<TransitionKind>)
        ensures
            r matches Some(k) ==> transition_kind_name(k) == raw@,
            r is None ==> forall|k: TransitionKind| transition_kind_name(k) != raw@,
    {
        if str_equal(raw, "fade") {
            Some(TransitionKind::Fade)
        } else if str_equal(raw, "wipe") {
            Some(TransitionKind::Wipe)
        } else if str_equal(raw, "push") {
            Some(TransitionKind::Push)
        } else if str_equal(raw, "e-ink") {
            Some(TransitionKind::EInk)
        } else if str_equal(raw, "iris") {
            Some(TransitionKind::Iris)
        } else {
            None
        }
    }
}

/// Distinct kinds have distinct shader numbers, so the renderer can tell
/// every transition apart.
pub proof fn lemma_transition_index_injective(a: TransitionKind, b: TransitionKind)
    ensures
        transition_kind_index(a) == transition_kind_index(b) <==> a == b,
{
}

// ---------------------------------------------------------------------------
// Resolving a pipeline's selection
// ---------------------------------------------------------------------------

/// How a pipeline picks its active entry.
#[derive(Debug, Clone, Copy, PartialEq, Eq, Structural)]
pub enum PipelineSelection {
    /// Always the single configured entry.
    Fixed,
    /// A uniformly random entry each time.
    Random,
    /// The entries in turn.
    Sequential,
}

/// Why a pipeline's `selection` cannot be honoured.
#[derive(Debug, Clone, Copy, PartialEq, Eq, Structural)]
pub enum SelectionError {
    /// The `active` list is empty.
    NoActiveEntries,
    /// `fixed` was requested with more than one active entry.
    FixedRequiresSingleEntry,
}

/// The message for `e` in the pipeline named `context` (`matting`,
/// `transition` or `photo-effect`), as the configuration reader words it.
pub open spec fn selection_error_text(e: SelectionError, context: Seq<char>) -> Seq<char> {
    match e {
        SelectionError::NoActiveEntries => context + " configuration must include at least one active entry"@,
        SelectionError::FixedRequiresSingleEntry => context
            + " selection 'fixed' requires exactly one active entry"@,
    }
}

impl SelectionError {
    /// The message for this error in the pipeline named `context`.
    pub fn message(&self, context: &str) -> (m: String)
        ensures
            m@ == selection_error_text(*self, context@),
    {
        let mut out = chars_of(context);
        let mut tail = match self {
            SelectionError::NoActiveEntries => chars_of(" configuration must include at least one active entry"),
            SelectionError::FixedRequiresSingleEntry => chars_of(
                " selection 'fixed' requires exactly one active entry",
            ),
        };
        out.append(&mut tail);
        string_from_chars(out.as_slice())
    }
}

/// The selection in force for `len` active entries when `requested` was
/// configured: with none requested, `fixed` for one entry and `random` for more.
pub open spec fn resolved_selection(requested: Option<PipelineSelection>, len: nat) -> Result<
    PipelineSelection,
    SelectionError,
> {
    if len == 0 {
        Err(SelectionError::NoActiveEntries)
    } else {
        match requested {
            Some(PipelineSelection::Fixed) => if len == 1 {
                Ok(PipelineSelection::Fixed)
            } else {
                Err(SelectionError::FixedRequiresSingleEntry)
            },
            Some(selection) => Ok(selection),
            None => if len == 1 {
                Ok(PipelineSelection::Fixed)
            } else {
                Ok(PipelineSelection::Random)
            },
        }
    }
}

/// Resolves the configured `selection` of a pipeline with `len` active entries.
pub fn resolve_pipeline_selection(requested: Option<PipelineSelection>, len: usize) -> (r: Result<
    PipelineSelection,
    SelectionError,
>)
    ensures
        r == resolved_selection(requested, len as nat),
{
    if len == 0 {
        return Err(SelectionError::NoActiveEntries);
    }
    match requested {
        Some(PipelineSelection::Fixed) => {
            if len != 1 {
                Err(SelectionError::FixedRequiresSingleEntry)
            } else {
                Ok(PipelineSelection::Fixed)
            }
        },
        Some(selection) => Ok(selection),
        None => {
            if len == 1 {
                Ok(PipelineSelection::Fixed)
            } else {
                Ok(PipelineSelection::Random)
            }
        },
    }
}

/// A resolved selection never breaks the rule it was checked against: `fixed`
/// only with one entry, and never any selection without entries.
pub proof fn lemma_resolved_selection_sound(requested: Option<PipelineSelection>, len: nat)
    ensures
        resolved_selection(requested, len) matches Ok(s) ==> len >= 1 && (s
            == PipelineSelection::Fixed ==> len == 1),
        resolved_selection(requested, len) is Ok <==> (len >= 1 && (requested == Some(
            PipelineSelection::Fixed,
        ) ==> len == 1)),
{
}

// ---------------------------------------------------------------------------
// Rotation through the entries
// ---------------------------------------------------------------------------

/// The rotation counter of a `sequential` selection. It is not `Clone`:
/// every draw from a selection goes through the one counter it owns.
#[derive(Debug)]
pub struct SequentialState {
    pub next_index: usize,
}

impl SequentialState {
    /// A counter that starts at the first entry.
    pub fn new() -> (s: Self)
        ensures
            s.next_index == 0,
    {
        SequentialState { next_index: 0 }
    }

    /// The entry to use among `len`, advancing the counter (which wraps
    /// around at the end of its range).
    pub fn next(&mut self, len: usize) -> (i: usize)
        requires
            len > 0,
        ensures
            i == old(self).next_index % len,
            i < len,
            final(self).next_index == (if old(self).next_index == usize::MAX {
                0
            } else {
                old(self).next_index + 1
            }),
    {
        let current = self.next_index;
        self.next_index = if current == usize::MAX {
            0
        } else {
            current + 1
        };
        current % len
    }
}

impl Default for SequentialState {
    fn default() -> (s: Self)
        ensures
            s.next_index == 0,
    {
        SequentialState::new()
    }
}

/// `k` successive calls of `next(len)` from a counter at `start` hand out
/// `start % len`, `(start + 1) % len`, ...: after `len` calls the rotation is
/// back where it began.
pub proof fn lemma_sequential_visits_in_turn(start: int, k: int, len: int)
    requires
        0 <= start,
        0 <= k,
        len > 0,
    ensures
        (start + k) % len == ((start % len) + k) % len,
        (start + len) % len == start % len,
{
    vstd::arithmetic::div_mod::lemma_add_mod_noop_right(k, start, len);
    vstd::arithmetic::div_mod::lemma_mod_add_multiples_vanish(start, len);
}

// ---------------------------------------------------------------------------
// Entries, selections and the options they resolve to
// ---------------------------------------------------------------------------

/// One active entry of a pipeline: the position of its options and its kind.
#[derive(Debug, Clone, Copy, PartialEq, Eq)]
pub struct SelectionEntry<K: Copy> {
    pub index: usize,
    pub kind: K,
}

/// An entry together with the options it resolves to.
#[derive(Debug, Clone, Copy)]
pub struct SelectedOption<'a, K: Copy, O> {
    pub entry: SelectionEntry<K>,
    pub option: &'a O,
}

/// The entries of `entries` whose options exist among `n` options, in order.
pub open spec fn resolvable<K: Copy>(entries: Seq<SelectionEntry<K>>, n: nat) -> Seq<
    SelectionEntry<K>,
>
    decreases entries.len(),
{
    if entries.len() == 0 {
        Seq::empty()
    } else if (entries.last().index as nat) < n {
        resolvable(entries.drop_last(), n).push(entries.last())
    } else {
        resolvable(entries.drop_last(), n)
    }
}

/// Position of the first entry at or after `from` that points at option
/// `index`, or the length.
pub open spec fn first_entry_for<K: Copy>(entries: Seq<SelectionEntry<K>>, index: usize, from: int) -> int
    decreases entries.len() - from,
{
    if from >= entries.len() {
        entries.len() as int
    } else if entries[from].index == index {
        from
    } else {
        first_entry_for(entries, index, from + 1)
    }
}

proof fn lemma_first_entry_for<K: Copy>(entries: Seq<SelectionEntry<K>>, index: usize, from: int)
    requires
        0 <= from <= entries.len(),
    ensures
        from <= first_entry_for(entries, index, from) <= entries.len(),
        first_entry_for(entries, index, from) < entries.len() ==> entries[first_entry_for(
            entries,
            index,
            from,
        )].index == index,
        forall|j: int|
            from <= j < first_entry_for(entries, index, from) ==> entries[j].index != index,
    decreases entries.len() - from,
{
    if from < entries.len() && entries[from].index != index {
        lemma_first_entry_for(entries, index, from + 1);
    }
}

proof fn lemma_resolvable_push<K: Copy>(pre: Seq<SelectionEntry<K>>, e: SelectionEntry<K>, n: nat)
    ensures
        resolvable(pre.push(e), n) == (if (e.index as nat) < n {
            resolvable(pre, n).push(e)
        } else {
            resolvable(pre, n)
        }),
{
    assert(pre.push(e).drop_last() == pre);
}

/// One of `entries`, drawn by `rand`'s `IteratorRandom::choose`.
///
/// The crate hands back `None` for an empty slice and one of the entries
/// otherwise; which one depends on the generator's state, and no clause
/// says which.
#[verifier::external_body]
fn choose_entry<K: Copy>(entries: &Vec<SelectionEntry<K>>, rng: &mut StdRng) -> (r: Option<
    SelectionEntry<K>,
>)
    ensures
        r is None <==> entries@.len() == 0,
        r matches Some(e) ==> entries@.contains(e),
{
    entries.iter().copied().choose(rng)
}

/// `r` is what the random chooser (`choose_entry`, that is `rand`'s
/// `IteratorRandom::choose`) returns for `entries` with the generator in
/// state `rng`.
pub closed spec fn chooser_pick<K: Copy>(entries: Seq<SelectionEntry<K>>, rng: StdRng, r: Option<SelectionEntry<K>>) -> bool {
    exists|v: &Vec<SelectionEntry<K>>, g: &mut StdRng|
        v@ == entries && *g == rng && #[trigger] call_ensures(choose_entry::<K>, (v, g), r)
}

/// A random draw is the random chooser's pick: drawing from a `random`
/// transition selection with the generator in state `rng` gives the entry
/// that `rand`'s chooser picks from its entries with that generator, not an
/// entry at a fixed position.
pub proof fn lemma_random_transition_draw_is_chooser_pick(
    sel: TransitionSelection,
    rng: StdRng,
    e: SelectionEntry<TransitionKind>,
)
    requires
        sel.wf(),
        sel is Random,
        exists|s: &mut TransitionSelection, g: &mut StdRng|
            *s == sel && *g == rng && #[trigger] call_ensures(TransitionSelection::pick, (s, g), e),
    ensures
        chooser_pick(sel->Random_0@, rng, Some(e)),
        sel->Random_0@.contains(e),
{
}

/// The same for matting: a random draw is the random chooser's pick.
pub proof fn lemma_random_matting_draw_is_chooser_pick(sel: MattingSelection, rng: StdRng, e: SelectionEntry<MattingKind>)
    requires
        sel.wf(),
        sel is Random,
        exists|s: &mut MattingSelection, g: &mut StdRng|
            *s == sel && *g == rng && #[trigger] call_ensures(MattingSelection::pick, (s, g), e),
    ensures
        chooser_pick(sel->Random_0@, rng, Some(e)),
        sel->Random_0@.contains(e),
{
}

/// `r` lists, in order, the entries of `entries` whose options exist among
/// `options`, each with its options.
pub open spec fn resolves_to<'a, K: Copy, O>(
    r: Seq<SelectedOption<'a, K, O>>,
    entries: Seq<SelectionEntry<K>>,
    options: Seq<O>,
) -> bool {
    &&& r.len() == resolvable(entries, options.len()).len()
    &&& forall|i: int|
        0 <= i < r.len() ==> r[i].entry == resolvable(entries, options.len())[i] && (
        r[i].entry.index as int) < options.len() && *r[i].option == options[r[i].entry.index as int]
}

/// The first of the options that `entries` resolve to, if any.
pub open spec fn first_resolved<'a, K: Copy, O>(
    r: Option<SelectedOption<'a, K, O>>,
    entries: Seq<SelectionEntry<K>>,
    options: Seq<O>,
) -> bool {
    match r {
        Some(s) => resolvable(entries, options.len()).len() > 0 && s.entry == resolvable(
            entries,
            options.len(),
        )[0] && (s.entry.index as int) < options.len() && *s.option == options[s.entry.index as int],
        None => resolvable(entries, options.len()).len() == 0,
    }
}

/// The entry of `entries` that first points at option `index`, with those
/// options, if that option exists and some entry points at it.
pub open spec fn found_by_index<'a, K: Copy, O>(
    r: Option<SelectedOption<'a, K, O>>,
    entries: Seq<SelectionEntry<K>>,
    options: Seq<O>,
    index: usize,
) -> bool {
    let j = first_entry_for(entries, index, 0);
    if (index as int) < options.len() && j < entries.len() {
        r matches Some(s) && s.entry == entries[j] && *s.option == options[index as int]
    } else {
        r is None
    }
}

/// The options that `entries` resolve to among `options`, in the entries' order;
/// entries whose options do not exist are skipped.
#[verifier::spinoff_prover]
fn resolve_entries<'a, K: Copy, O>(entries: &Vec<SelectionEntry<K>>, options: &'a Vec<O>) -> (r: Vec<
    SelectedOption<'a, K, O>,
>)
    ensures
        resolves_to(r@, entries@, options@),
{
    let ghost n = options@.len();
    let mut r: Vec<SelectedOption<'a, K, O>> = Vec::new();
    let mut i: usize = 0;
    while i < entries.len()
        invariant
            0 <= i <= entries@.len(),
            n == options@.len(),
            r@.len() == resolvable(entries@.subrange(0, i as int), n).len(),
            forall|j: int|
                0 <= j < r@.len() ==> r@[j].entry == resolvable(entries@.subrange(0, i as int), n)[j]
                    && (r@[j].entry.index as int) < options@.len() && *r@[j].option
                    == options@[r@[j].entry.index as int],
        decreases entries.len() - i,
    {
        let entry = entries[i];
        proof {
            let pre = entries@.subrange(0, i as int);
            assert(entries@.subrange(0, i + 1) == pre.push(entry));
            lemma_resolvable_push(pre, entry, n);
        }
        if entry.index < options.len() {
            r.push(SelectedOption { entry, option: &options[entry.index] });
        }
        i = i + 1;
    }
    proof {
        assert(entries@.subrange(0, entries@.len() as int) == entries@);
    }
    r
}

/// The first entry of `entries` that points at option `index`, if that option exists.
fn find_entry<'a, K: Copy, O>(entries: &Vec<SelectionEntry<K>>, options: &'a Vec<O>, index: usize) -> (r:
    Option<SelectedOption<'a, K, O>>)
    ensures
        found_by_index(r, entries@, options@, index),
{
    proof {
        lemma_first_entry_for(entries@, index, 0);
    }
    if index >= options.len() {
        return None;
    }
    let mut i: usize = 0;
    while i < entries.len()
        invariant
            0 <= i <= entries@.len(),
            (index as int) < options@.len(),
            forall|j: int| 0 <= j < i ==> entries@[j].index != index,
        decreases entries.len() - i,
    {
        if entries[i].index == index {
            proof {
                lemma_first_entry_for(entries@, index, 0);
                lemma_first_entry_at_hit(entries@, index, 0, i as int);
            }
            return Some(SelectedOption { entry: entries[i], option: &options[index] });
        }
        i = i + 1;
    }
    proof {
        lemma_first_entry_none(entries@, index, 0);
    }
    None
}

proof fn lemma_first_entry_at_hit<K: Copy>(entries: Seq<SelectionEntry<K>>, index: usize, from: int, i: int)
    requires
        0 <= from <= i < entries.len(),
        entries[i].index == index,
        forall|j: int| from <= j < i ==> entries[j].index != index,
    ensures
        first_entry_for(entries, index, from) == i,
    decreases i - from,
{
    if from < i {
        lemma_first_entry_at_hit(entries, index, from + 1, i);
    }
}

proof fn lemma_first_entry_none<K: Copy>(entries: Seq<SelectionEntry<K>>, index: usize, from: int)
    requires
        0 <= from <= entries.len(),
        forall|j: int| from <= j < entries.len() ==> entries[j].index != index,
    ensures
        first_entry_for(entries, index, from) == entries.len(),
    decreases entries.len() - from,
{
    if from < entries.len() {
        lemma_first_entry_none(entries, index, from + 1);
    }
}

/// How the matting pipeline picks its active entry.
#[derive(Debug)]
pub enum MattingSelection {
    Fixed(SelectionEntry<MattingKind>),
    Random(Vec<SelectionEntry<MattingKind>>),
    Sequential { entries: Vec<SelectionEntry<MattingKind>>, runtime: SequentialState },
}

impl MattingSelection {
    /// The entries that the selection draws from.
    pub open spec fn entries_spec(&self) -> Seq<SelectionEntry<MattingKind>> {
        match self {
            MattingSelection::Fixed(e) => seq![*e],
            MattingSelection::Random(es) => es@,
            MattingSelection::Sequential { entries, .. } => entries@,
        }
    }

    /// A selection that can draw: it has at least one entry.
    pub open spec fn wf(&self) -> bool {
        self.entries_spec().len() > 0
    }

    /// The state after one draw: only a rotation moves on.
    pub open spec fn advanced(&self) -> Self {
        match self {
            MattingSelection::Sequential { entries, runtime } => MattingSelection::Sequential {
                entries: *entries,
                runtime: SequentialState {
                    next_index: if runtime.next_index == usize::MAX {
                        0
                    } else {
                        (runtime.next_index + 1) as usize
                    },
                },
            },
            _ => *self,
        }
    }

    /// The selection of kind `selection` over `entries` (a fixed one takes the
    /// first entry), with a rotation that starts at the first entry.
    pub fn from_resolved(selection: PipelineSelection, entries: Vec<SelectionEntry<MattingKind>>) -> (s: Self)
        requires
            entries@.len() > 0,
        ensures
            s.wf(),
            selection == PipelineSelection::Fixed ==> s == MattingSelection::Fixed(entries@[0]),
            selection == PipelineSelection::Random ==> s == MattingSelection::Random(entries),
            selection == PipelineSelection::Sequential ==> s == (MattingSelection::Sequential {
                entries,
                runtime: SequentialState { next_index: 0 },
            }),
    {
        match selection {
            PipelineSelection::Fixed => MattingSelection::Fixed(entries[0]),
            PipelineSelection::Random => MattingSelection::Random(entries),
            PipelineSelection::Sequential => MattingSelection::Sequential {
                entries,
                runtime: SequentialState::new(),
            },
        }
    }

    /// The selection for the configured `requested` strategy over the active
    /// `entries`, or why the configuration is refused.
    pub fn from_active(requested: Option<PipelineSelection>, entries: Vec<SelectionEntry<MattingKind>>) -> (r:
        Result<Self, SelectionError>)
        ensures
            match resolved_selection(requested, entries@.len()) {
                Err(e) => r == Err::<Self, SelectionError>(e),
                Ok(sel) => r matches Ok(s) && s.wf() && s.entries_spec() == (if sel
                    == PipelineSelection::Fixed {
                    seq![entries@[0]]
                } else {
                    entries@
                }) && (sel == PipelineSelection::Fixed ==> s is Fixed) && (sel
                    == PipelineSelection::Random ==> s is Random) && (sel
                    == PipelineSelection::Sequential ==> s == (MattingSelection::Sequential {
                    entries,
                    runtime: SequentialState { next_index: 0 },
                })),
            },
    {
        match resolve_pipeline_selection(requested, entries.len()) {
            Err(e) => Err(e),
            Ok(sel) => Ok(MattingSelection::from_resolved(sel, entries)),
        }
    }

    /// The entries that the selection draws from, in configuration order.
    pub fn entries(&self) -> (r: Vec<SelectionEntry<MattingKind>>)
        ensures
            r@ == self.entries_spec(),
    {
        match self {
            MattingSelection::Fixed(e) => {
                let mut v: Vec<SelectionEntry<MattingKind>> = Vec::new();
                v.push(*e);
                v
            },
            MattingSelection::Random(es) => copy_entries(es),
            MattingSelection::Sequential { entries, .. } => copy_entries(entries),
        }
    }

    /// Draws the active entry: the fixed one, one at random (from `rng`), or
    /// the next one in rotation.
    pub fn pick(&mut self, rng: &mut StdRng) -> (e: SelectionEntry<MattingKind>)
        requires
            old(self).wf(),
        ensures
            *final(self) == old(self).advanced(),
            final(self).wf(),
            old(self).entries_spec().contains(e),
            *old(self) matches MattingSelection::Fixed(f) ==> e == f,
            *old(self) matches MattingSelection::Sequential { entries, runtime } ==> e == entries@[(
            runtime.next_index as int) % (entries@.len() as int)],
            *old(self) matches MattingSelection::Random(entries) ==> chooser_pick(entries@, *old(rng), Some(e)),
    {
        match self {
            MattingSelection::Fixed(e) => {
                let r = *e;
                proof {
                    lemma_singleton_contains(r);
                }
                r
            },
            MattingSelection::Random(entries) => {
                let ghost before = *rng;
                let chosen = choose_entry(entries, rng);
                match chosen {
                    Some(e) => {
                        assert(exists|g: &mut StdRng| *g == before && call_ensures(choose_entry::<MattingKind>, (entries, g), Some(e)));
                        e
                    },
                    None => {
                        proof {
                            assert(false);
                        }
                        entries[0]
                    },
                }
            },
            MattingSelection::Sequential { entries, runtime } => {
                let i = runtime.next(entries.len());
                let e = entries[i];
                assert(entries@[i as int] == e);
                e
            },
        }
    }
}

/// How the transition pipeline picks its active entry.
#[derive(Debug)]
pub enum TransitionSelection {
    Fixed(SelectionEntry<TransitionKind>),
    Random(Vec<SelectionEntry<TransitionKind>>),
    Sequential { entries: Vec<SelectionEntry<TransitionKind>>, runtime: SequentialState },
}

impl TransitionSelection {
    /// The entries that the selection draws from.
    pub open spec fn entries_spec(&self) -> Seq<SelectionEntry<TransitionKind>> {
        match self {
            TransitionSelection::Fixed(e) => seq![*e],
            TransitionSelection::Random(es) => es@,
            TransitionSelection::Sequential { entries, .. } => entries@,
        }
    }

    /// A selection that can draw: it has at least one entry.
    pub open spec fn wf(&self) -> bool {
        self.entries_spec().len() > 0
    }

    /// The state after one draw: only a rotation moves on.
    pub open spec fn advanced(&self) -> Self {
        match self {
            TransitionSelection::Sequential { entries, runtime } => TransitionSelection::Sequential {
                entries: *entries,
                runtime: SequentialState {
                    next_index: if runtime.next_index == usize::MAX {
                        0
                    } else {
                        (runtime.next_index + 1) as usize
                    },
                },
            },
            _ => *self,
        }
    }

    /// The selection of kind `selection` over `entries` (a fixed one takes the
    /// first entry), with a rotation that starts at the first entry.
    pub fn from_resolved(selection: PipelineSelection, entries: Vec<SelectionEntry<TransitionKind>>) -> (s: Self)
        requires
            entries@.len() > 0,
        ensures
            s.wf(),
            selection == PipelineSelection::Fixed ==> s == TransitionSelection::Fixed(entries@[0]),
            selection == PipelineSelection::Random ==> s == TransitionSelection::Random(entries),
            selection == PipelineSelection::Sequential ==> s == (TransitionSelection::Sequential {
                entries,
                runtime: SequentialState { next_index: 0 },
            }),
    {
        match selection {
            PipelineSelection::Fixed => TransitionSelection::Fixed(entries[0]),
            PipelineSelection::Random => TransitionSelection::Random(entries),
            PipelineSelection::Sequential => TransitionSelection::Sequential {
                entries,
                runtime: SequentialState::new(),
            },
        }
    }

    /// The selection for the configured `requested` strategy over the active
    /// `entries`, or why the configuration is refused.
    pub fn from_active(requested: Option<PipelineSelection>, entries: Vec<SelectionEntry<TransitionKind>>) -> (r:
        Result<Self, SelectionError>)
        ensures
            match resolved_selection(requested, entries@.len()) {
                Err(e) => r == Err::<Self, SelectionError>(e),
                Ok(sel) => r matches Ok(s) && s.wf() && s.entries_spec() == (if sel
                    == PipelineSelection::Fixed {
                    seq![entries@[0]]
                } else {
                    entries@
                }) && (sel == PipelineSelection::Fixed ==> s is Fixed) && (sel
                    == PipelineSelection::Random ==> s is Random) && (sel
                    == PipelineSelection::Sequential ==> s == (TransitionSelection::Sequential {
                    entries,
                    runtime: SequentialState { next_index: 0 },
                })),
            },
    {
        match resolve_pipeline_selection(requested, entries.len()) {
            Err(e) => Err(e),
            Ok(sel) => Ok(TransitionSelection::from_resolved(sel, entries)),
        }
    }

    /// The entries that the selection draws from, in configuration order.
    pub fn entries(&self) -> (r: Vec<SelectionEntry<TransitionKind>>)
        ensures
            r@ == self.entries_spec(),
    {
        match self {
            TransitionSelection::Fixed(e) => {
                let mut v: Vec<SelectionEntry<TransitionKind>> = Vec::new();
                v.push(*e);
                v
            },
            TransitionSelection::Random(es) => copy_entries(es),
            TransitionSelection::Sequential { entries, .. } => copy_entries(entries),
        }
    }

    /// Draws the active entry: the fixed one, one at random (from `rng`), or
    /// the next one in rotation.
    pub fn pick(&mut self, rng: &mut StdRng) -> (e: SelectionEntry<TransitionKind>)
        requires
            old(self).wf(),
        ensures
            *final(self) == old(self).advanced(),
            final(self).wf(),
            old(self).entries_spec().contains(e),
            *old(self) matches TransitionSelection::Fixed(f) ==> e == f,
            *old(self) matches TransitionSelection::Sequential { entries, runtime } ==> e == entries@[(
            runtime.next_index as int) % (entries@.len() as int)],
            *old(self) matches TransitionSelection::Random(entries) ==> chooser_pick(entries@, *old(rng), Some(e)),
    {
        match self {
            TransitionSelection::Fixed(e) => {
                let r = *e;
                proof {
                    lemma_singleton_contains(r);
                }
                r
            },
            TransitionSelection::Random(entries) => {
                let ghost before = *rng;
                let chosen = choose_entry(entries, rng);
                match chosen {
                    Some(e) => {
                        assert(exists|g: &mut StdRng| *g == before && call_ensures(choose_entry::<TransitionKind>, (entries, g), Some(e)));
                        e
                    },
                    None => {
                        proof {
                            assert(false);
                        }
                        entries[0]
                    },
                }
            },
            TransitionSelection::Sequential { entries, runtime } => {
                let i = runtime.next(entries.len());
                let e = entries[i];
                assert(entries@[i as int] == e);
                e
            },
        }
    }
}

/// The matting pipeline: its selection and the options of its entries.
pub struct MattingConfig<O> {
    pub selection: MattingSelection,
    pub options: Vec<O>,
}

impl<O> MattingConfig<O> {
    /// The selection can draw, and every entry names existing options.
    pub open spec fn wf(&self) -> bool {
        &&& self.selection.wf()
        &&& forall|i: int|
            0 <= i < self.selection.entries_spec().len() ==> (self.selection.entries_spec()[i].index
                as int) < self.options@.len()
    }

    /// How the active entry is picked.
    pub fn selection(&self) -> (r: &MattingSelection)
        ensures
            *r == self.selection,
    {
        &self.selection
    }

    /// The configured options, one per entry.
    pub fn options(&self) -> (r: &[O])
        ensures
            r@ == self.options@,
    {
        self.options.as_slice()
    }

    /// The entries in configuration order, each with its options; entries
    /// without options are skipped.
    pub fn iter_selected(&self) -> (r: Vec<SelectedOption<'_, MattingKind, O>>)
        ensures
            resolves_to(r@, self.selection.entries_spec(), self.options@),
    {
        let entries = self.selection.entries();
        resolve_entries(&entries, &self.options)
    }

    /// The first entry that has options.
    pub fn primary_selected(&self) -> (r: Option<SelectedOption<'_, MattingKind, O>>)
        ensures
            first_resolved(r, self.selection.entries_spec(), self.options@),
    {
        let all = self.iter_selected();
        if all.len() == 0 {
            None
        } else {
            Some(SelectedOption { entry: all[0].entry, option: all[0].option })
        }
    }

    /// The first entry that points at option `index`, if that option exists.
    pub fn selected_by_index(&self, index: usize) -> (r: Option<SelectedOption<'_, MattingKind, O>>)
        ensures
            found_by_index(r, self.selection.entries_spec(), self.options@, index),
    {
        let entries = self.selection.entries();
        find_entry(&entries, &self.options, index)
    }

    /// The options of the first entry that has options.
    pub fn primary_option(&self) -> (r: Option<&O>)
        ensures
            r matches Some(o) ==> resolvable(self.selection.entries_spec(), self.options@.len()).len()
                > 0 && *o == self.options@[resolvable(
                self.selection.entries_spec(),
                self.options@.len(),
            )[0].index as int],
            r is None ==> resolvable(self.selection.entries_spec(), self.options@.len()).len() == 0,
    {
        match self.primary_selected() {
            Some(selected) => Some(selected.option),
            None => None,
        }
    }

    /// Draws the active entry (see `pick`) and returns it with its options.
    pub fn select_active(&mut self, rng: &mut StdRng) -> (r: SelectedOption<'_, MattingKind, O>)
        requires
            old(self).wf(),
        ensures
            final(self).selection == old(self).selection.advanced(),
            final(self).options == old(self).options,
            final(self).wf(),
            old(self).selection.entries_spec().contains(r.entry),
            old(self).selection matches MattingSelection::Fixed(f) ==> r.entry == f,
            old(self).selection matches MattingSelection::Sequential { entries, runtime } ==> r.entry
                == entries@[(runtime.next_index as int) % (entries@.len() as int)],
            (r.entry.index as int) < old(self).options@.len(),
            *r.option == old(self).options@[r.entry.index as int],
    {
        let entry = self.selection.pick(rng);
        proof {
            let es = old(self).selection.entries_spec();
            let j = choose|j: int| 0 <= j < es.len() && es[j] == entry;
            assert(es[j] == entry);
        }
        SelectedOption { entry, option: &self.options[entry.index] }
    }
}

/// The transition pipeline: its selection and the options of its entries.
pub struct TransitionConfig<O> {
    pub selection: TransitionSelection,
    pub options: Vec<O>,
}

impl<O> TransitionConfig<O> {
    /// The selection can draw, and every entry names existing options.
    pub open spec fn wf(&self) -> bool {
        &&& self.selection.wf()
        &&& forall|i: int|
            0 <= i < self.selection.entries_spec().len() ==> (self.selection.entries_spec()[i].index
                as int) < self.options@.len()
    }

    /// How the active entry is picked.
    pub fn selection(&self) -> (r: &TransitionSelection)
        ensures
            *r == self.selection,
    {
        &self.selection
    }

    /// The configured options, one per entry.
    pub fn options(&self) -> (r: &[O])
        ensures
            r@ == self.options@,
    {
        self.options.as_slice()
    }

    /// The entries in configuration order, each with its options; entries
    /// without options are skipped.
    pub fn iter_selected(&self) -> (r: Vec<SelectedOption<'_, TransitionKind, O>>)
        ensures
            resolves_to(r@, self.selection.entries_spec(), self.options@),
    {
        let entries = self.selection.entries();
        resolve_entries(&entries, &self.options)
    }

    /// The first entry that has options.
    pub fn primary_selected(&self) -> (r: Option<SelectedOption<'_, TransitionKind, O>>)
        ensures
            first_resolved(r, self.selection.entries_spec(), self.options@),
    {
        let all = self.iter_selected();
        if all.len() == 0 {
            None
        } else {
            Some(SelectedOption { entry: all[0].entry, option: all[0].option })
        }
    }

    /// The first entry that points at option `index`, if that option exists.
    pub fn selected_by_index(&self, index: usize) -> (r: Option<SelectedOption<'_, TransitionKind, O>>)
        ensures
            found_by_index(r, self.selection.entries_spec(), self.options@, index),
    {
        let entries = self.selection.entries();
        find_entry(&entries, &self.options, index)
    }

    /// The options of the first entry that has options.
    pub fn primary_option(&self) -> (r: Option<&O>)
        ensures
            r matches Some(o) ==> resolvable(self.selection.entries_spec(), self.options@.len()).len()
                > 0 && *o == self.options@[resolvable(
                self.selection.entries_spec(),
                self.options@.len(),
            )[0].index as int],
            r is None ==> resolvable(self.selection.entries_spec(), self.options@.len()).len() == 0,
    {
        match self.primary_selected() {
            Some(selected) => Some(selected.option),
            None => None,
        }
    }

    /// Draws the active entry (see `pick`) and returns it with its options.
    pub fn select_active(&mut self, rng: &mut StdRng) -> (r: SelectedOption<'_, TransitionKind, O>)
        requires
            old(self).wf(),
        ensures
            final(self).selection == old(self).selection.advanced(),
            final(self).options == old(self).options,
            final(self).wf(),
            old(self).selection.entries_spec().contains(r.entry),
            old(self).selection matches TransitionSelection::Fixed(f) ==> r.entry == f,
            old(self).selection matches TransitionSelection::Sequential { entries, runtime } ==> r.entry
                == entries@[(runtime.next_index as int) % (entries@.len() as int)],
            (r.entry.index as int) < old(self).options@.len(),
            *r.option == old(self).options@[r.entry.index as int],
    {
        let entry = self.selection.pick(rng);
        proof {
            let es = old(self).selection.entries_spec();
            let j = choose|j: int| 0 <= j < es.len() && es[j] == entry;
            assert(es[j] == entry);
        }
        SelectedOption { entry, option: &self.options[entry.index] }
    }
}

/// Why the transition entries do not fit the configured options.
#[derive(Debug, Clone, Copy, PartialEq, Eq, Structural)]
pub enum TransitionError {
    /// No transition options are configured.
    NoActiveEntries,
    /// The entry points past the last option.
    IndexOutOfBounds { kind: TransitionKind, index: usize },
    /// The entry's kind differs from its option's kind.
    KindMismatch { kind: TransitionKind, index: usize },
}

/// What is wrong with `entry` given the kinds of the options, if anything.
pub open spec fn entry_problem(entry: SelectionEntry<TransitionKind>, kinds: Seq<TransitionKind>) -> Option<
    TransitionError,
> {
    if (entry.index as int) >= kinds.len() {
        Some(TransitionError::IndexOutOfBounds { kind: entry.kind, index: entry.index })
    } else if kinds[entry.index as int] != entry.kind {
        Some(TransitionError::KindMismatch { kind: entry.kind, index: entry.index })
    } else {
        None
    }
}

/// The problem of the first entry at or after `from` that has one.
pub open spec fn first_problem(
    entries: Seq<SelectionEntry<TransitionKind>>,
    kinds: Seq<TransitionKind>,
    from: int,
) -> Option<TransitionError>
    decreases entries.len() - from,
{
    if from >= entries.len() {
        None
    } else if entry_problem(entries[from], kinds) is Some {
        entry_problem(entries[from], kinds)
    } else {
        first_problem(entries, kinds, from + 1)
    }
}

proof fn lemma_no_problem_means_fit(
    entries: Seq<SelectionEntry<TransitionKind>>,
    kinds: Seq<TransitionKind>,
    from: int,
)
    requires
        0 <= from,
        first_problem(entries, kinds, from) is None,
    ensures
        forall|j: int|
            from <= j < entries.len() ==> (entries[j].index as int) < kinds.len()
                && kinds[entries[j].index as int] == entries[j].kind,
    decreases entries.len() - from,
{
    if from < entries.len() {
        lemma_no_problem_means_fit(entries, kinds, from + 1);
    }
}

impl<O> TransitionConfig<O> {
    /// Checks that there are options and that every entry points at an option
    /// of its own kind; `option_kinds` are the kinds of `options`, in order.
    pub fn check_entries(&self, option_kinds: &Vec<TransitionKind>) -> (r: Result<(), TransitionError>)
        requires
            option_kinds@.len() == self.options@.len(),
        ensures
            self.options@.len() == 0 ==> r == Err::<(), TransitionError>(
                TransitionError::NoActiveEntries,
            ),
            self.options@.len() > 0 ==> r == match first_problem(
                self.selection.entries_spec(),
                option_kinds@,
                0,
            ) {
                Some(e) => Err(e),
                None => Ok(()),
            },
            r is Ok ==> forall|j: int|
                0 <= j < self.selection.entries_spec().len() ==> (
                self.selection.entries_spec()[j].index as int) < self.options@.len()
                    && option_kinds@[self.selection.entries_spec()[j].index as int]
                    == self.selection.entries_spec()[j].kind,
    {
        if self.options.len() == 0 {
            return Err(TransitionError::NoActiveEntries);
        }
        let entries = self.selection.entries();
        let ghost es = entries@;
        let mut i: usize = 0;
        while i < entries.len()
            invariant
                0 <= i <= es.len(),
                es == entries@,
                es == self.selection.entries_spec(),
                option_kinds@.len() == self.options@.len(),
                self.options@.len() > 0,
                first_problem(es, option_kinds@, 0) == first_problem(es, option_kinds@, i as int),
            decreases entries.len() - i,
        {
            let entry = entries[i];
            if entry.index >= option_kinds.len() {
                return Err(TransitionError::IndexOutOfBounds { kind: entry.kind, index: entry.index });
            }
            if option_kinds[entry.index] != entry.kind {
                return Err(TransitionError::KindMismatch { kind: entry.kind, index: entry.index });
            }
            i = i + 1;
        }
        proof {
            lemma_no_problem_means_fit(es, option_kinds@, 0);
        }
        Ok(())
    }
}

impl<O> MattingConfig<O> {
    /// Checks that at least one matting option is configured.
    pub fn check_active(&self) -> (r: Result<(), SelectionError>)
        ensures
            r is Ok <==> self.options@.len() > 0,
            r is Err ==> r == Err::<(), SelectionError>(SelectionError::NoActiveEntries),
    {
        if self.options.len() == 0 {
            Err(SelectionError::NoActiveEntries)
        } else {
            Ok(())
        }
    }
}

/// How the photo-effect pipeline picks its effect; it may be switched off.
#[derive(Debug)]
pub enum PhotoEffectSelection {
    Disabled,
    Fixed(SelectionEntry<PhotoEffectKind>),
    Random(Vec<SelectionEntry<PhotoEffectKind>>),
    Sequential { entries: Vec<SelectionEntry<PhotoEffectKind>>, runtime: SequentialState },
}

impl PhotoEffectSelection {
    /// The entries that the selection draws from (none when disabled).
    pub open spec fn entries_spec(&self) -> Seq<SelectionEntry<PhotoEffectKind>> {
        match self {
            PhotoEffectSelection::Disabled => Seq::empty(),
            PhotoEffectSelection::Fixed(e) => seq![*e],
            PhotoEffectSelection::Random(es) => es@,
            PhotoEffectSelection::Sequential { entries, .. } => entries@,
        }
    }

    /// The selection for the configured `requested` strategy over the active
    /// `entries`: switched off when there are none.
    pub fn from_active(
        requested: Option<PipelineSelection>,
        entries: Vec<SelectionEntry<PhotoEffectKind>>,
    ) -> (r: Result<Self, SelectionError>)
        ensures
            entries@.len() == 0 ==> (r matches Ok(s) && s is Disabled),
            entries@.len() > 0 ==> match resolved_selection(requested, entries@.len()) {
                Err(e) => r == Err::<Self, SelectionError>(e),
                Ok(sel) => r matches Ok(s) && (sel == PipelineSelection::Fixed ==> s
                    == PhotoEffectSelection::Fixed(entries@[0])) && (sel
                    == PipelineSelection::Random ==> s == PhotoEffectSelection::Random(entries))
                    && (sel == PipelineSelection::Sequential ==> s == (
                PhotoEffectSelection::Sequential {
                    entries,
                    runtime: SequentialState { next_index: 0 },
                })),
            },
    {
        if entries.len() == 0 {
            return Ok(PhotoEffectSelection::Disabled);
        }
        match resolve_pipeline_selection(requested, entries.len()) {
            Err(e) => Err(e),
            Ok(PipelineSelection::Fixed) => Ok(PhotoEffectSelection::Fixed(entries[0])),
            Ok(PipelineSelection::Random) => Ok(PhotoEffectSelection::Random(entries)),
            Ok(PipelineSelection::Sequential) => Ok(
                PhotoEffectSelection::Sequential { entries, runtime: SequentialState::new() },
            ),
        }
    }
}

/// Position of the first options of kind `kind` at or after `from`, or the length.
pub open spec fn first_options_for<O>(options: Seq<(PhotoEffectKind, O)>, kind: PhotoEffectKind, from: int) -> int
    decreases options.len() - from,
{
    if from >= options.len() {
        options.len() as int
    } else if options[from].0 == kind {
        from
    } else {
        first_options_for(options, kind, from + 1)
    }
}

proof fn lemma_first_options_for<O>(options: Seq<(PhotoEffectKind, O)>, kind: PhotoEffectKind, from: int)
    requires
        0 <= from <= options.len(),
    ensures
        from <= first_options_for(options, kind, from) <= options.len(),
        first_options_for(options, kind, from) < options.len() ==> options[first_options_for(
            options,
            kind,
            from,
        )].0 == kind,
        forall|j: int| from <= j < first_options_for(options, kind, from) ==> options[j].0 != kind,
    decreases options.len() - from,
{
    if from < options.len() && options[from].0 != kind {
        lemma_first_options_for(options, kind, from + 1);
    }
}

/// The options configured for `kind` among `options`, if any.
pub open spec fn options_for<O>(options: Seq<(PhotoEffectKind, O)>, kind: PhotoEffectKind) -> Option<O> {
    let j = first_options_for(options, kind, 0);
    if j < options.len() {
        Some(options[j].1)
    } else {
        None
    }
}

/// Why the photo-effect configuration cannot run.
#[derive(Debug, Clone, Copy, PartialEq, Eq, Structural)]
pub enum PhotoEffectError {
    /// A random or sequential selection without entries.
    NoActiveEntries,
    /// The entry's effect has no options.
    MissingOptions { index: usize, kind: PhotoEffectKind },
}

/// The first entry at or after `from` whose effect has no options, as an error.
pub open spec fn first_missing<O>(
    entries: Seq<SelectionEntry<PhotoEffectKind>>,
    options: Seq<(PhotoEffectKind, O)>,
    from: int,
) -> Option<PhotoEffectError>
    decreases entries.len() - from,
{
    if from >= entries.len() {
        None
    } else if options_for(options, entries[from].kind) is None {
        Some(PhotoEffectError::MissingOptions { index: entries[from].index, kind: entries[from].kind })
    } else {
        first_missing(entries, options, from + 1)
    }
}

/// The photo-effect pipeline: its selection and the options of each effect.
pub struct PhotoEffectConfig<O> {
    pub selection: PhotoEffectSelection,
    pub options: Vec<(PhotoEffectKind, O)>,
}

impl<O> PhotoEffectConfig<O> {
    /// A switched-off pipeline.
    pub fn disabled() -> (c: Self)
        ensures
            c.selection is Disabled,
            c.options@.len() == 0,
    {
        PhotoEffectConfig { selection: PhotoEffectSelection::Disabled, options: Vec::new() }
    }

    /// Whether an effect is applied at all.
    pub fn is_enabled(&self) -> (b: bool)
        ensures
            b == !(self.selection is Disabled),
    {
        match self.selection {
            PhotoEffectSelection::Disabled => false,
            _ => true,
        }
    }

    fn lookup(&self, kind: PhotoEffectKind) -> (r: Option<&O>)
        ensures
            match options_for(self.options@, kind) {
                Some(o) => r matches Some(x) && *x == o,
                None => r is None,
            },
    {
        proof {
            lemma_first_options_for(self.options@, kind, 0);
        }
        let mut i: usize = 0;
        while i < self.options.len()
            invariant
                0 <= i <= self.options@.len(),
                forall|j: int| 0 <= j < i ==> self.options@[j].0 != kind,
            decreases self.options.len() - i,
        {
            if self.options[i].0 == kind {
                proof {
                    lemma_first_options_hit(self.options@, kind, 0, i as int);
                }
                return Some(&self.options[i].1);
            }
            i = i + 1;
        }
        proof {
            lemma_first_options_none(self.options@, kind, 0);
        }
        None
    }

    /// The options of the effect to apply next: none when switched off; those
    /// of the fixed entry; of a random entry (from `rng`); or of the next entry
    /// in rotation. `None` too when the drawn effect has no options.
    pub fn choose_option(&mut self, rng: &mut StdRng) -> (r: Option<&O>)
        ensures
            final(self).options == old(self).options,
            old(self).selection is Disabled ==> r is None && final(self).selection
                == old(self).selection,
            old(self).selection matches PhotoEffectSelection::Fixed(e) ==> final(self).selection
                == old(self).selection && match options_for(old(self).options@, e.kind) {
                Some(o) => r matches Some(x) && *x == o,
                None => r is None,
            },
            old(self).selection matches PhotoEffectSelection::Random(es) ==> final(self).selection
                == old(self).selection && (es@.len() == 0 ==> r is None) && (r matches Some(x)
                ==> exists|e: SelectionEntry<PhotoEffectKind>|
                es@.contains(e) && options_for(old(self).options@, e.kind) == Some(*x)),
            old(self).selection matches PhotoEffectSelection::Sequential { entries, runtime } ==> (
            entries@.len() == 0 ==> r is None && final(self).selection == old(self).selection) && (
            entries@.len() > 0 ==> final(self).selection == (PhotoEffectSelection::Sequential {
                entries,
                runtime: SequentialState {
                    next_index: if runtime.next_index == usize::MAX {
                        0
                    } else {
                        (runtime.next_index + 1) as usize
                    },
                },
            }) && match options_for(
                old(self).options@,
                entries@[(runtime.next_index as int) % (entries@.len() as int)].kind,
            ) {
                Some(o) => r matches Some(x) && *x == o,
                None => r is None,
            }),
    {
        let kind = match &mut self.selection {
            PhotoEffectSelection::Disabled => {
                return None;
            },
            PhotoEffectSelection::Fixed(entry) => entry.kind,
            PhotoEffectSelection::Random(entries) => {
                match choose_entry(entries, rng) {
                    Some(entry) => entry.kind,
                    None => {
                        return None;
                    },
                }
            },
            PhotoEffectSelection::Sequential { entries, runtime } => {
                if entries.len() == 0 {
                    return None;
                }
                let index = runtime.next(entries.len());
                entries[index].kind
            },
        };
        self.lookup(kind)
    }

    /// Checks that a random or sequential selection has entries and that
    /// every entry's effect has options; a switched-off pipeline always passes.
    pub fn prepare_runtime(&self) -> (r: Result<(), PhotoEffectError>)
        ensures
            self.selection is Disabled ==> r is Ok,
            ((self.selection is Random || self.selection is Sequential)
                && self.selection.entries_spec().len() == 0) ==> r == Err::<(), PhotoEffectError>(
                PhotoEffectError::NoActiveEntries,
            ),
            (!(self.selection is Disabled) && self.selection.entries_spec().len() > 0) ==> r
                == match first_missing(self.selection.entries_spec(), self.options@, 0) {
                Some(e) => Err(e),
                None => Ok(()),
            },
    {
        let entries: Vec<SelectionEntry<PhotoEffectKind>> = match &self.selection {
            PhotoEffectSelection::Disabled => {
                return Ok(());
            },
            PhotoEffectSelection::Fixed(entry) => {
                let mut v: Vec<SelectionEntry<PhotoEffectKind>> = Vec::new();
                v.push(*entry);
                v
            },
            PhotoEffectSelection::Random(es) => copy_entries(es),
            PhotoEffectSelection::Sequential { entries, .. } => copy_entries(entries),
        };
        if entries.len() == 0 {
            return Err(PhotoEffectError::NoActiveEntries);
        }
        let ghost es = entries@;
        let mut i: usize = 0;
        while i < entries.len()
            invariant
                0 <= i <= es.len(),
                es == entries@,
                es == self.selection.entries_spec(),
                first_missing(es, self.options@, 0) == first_missing(es, self.options@, i as int),
            decreases entries.len() - i,
        {
            let entry = entries[i];
            if self.lookup(entry.kind).is_none() {
                return Err(PhotoEffectError::MissingOptions { index: entry.index, kind: entry.kind });
            }
            i = i + 1;
        }
        Ok(())
    }
}

proof fn lemma_first_options_hit<O>(options: Seq<(PhotoEffectKind, O)>, kind: PhotoEffectKind, from: int, i: int)
    requires
        0 <= from <= i < options.len(),
        options[i].0 == kind,
        forall|j: int| from <= j < i ==> options[j].0 != kind,
    ensures
        first_options_for(options, kind, from) == i,
    decreases i - from,
{
    if from < i {
        lemma_first_options_hit(options, kind, from + 1, i);
    }
}

proof fn lemma_first_options_none<O>(options: Seq<(PhotoEffectKind, O)>, kind: PhotoEffectKind, from: int)
    requires
        0 <= from <= options.len(),
        forall|j: int| from <= j < options.len() ==> options[j].0 != kind,
    ensures
        first_options_for(options, kind, from) == options.len(),
    decreases options.len() - from,
{
    if from < options.len() {
        lemma_first_options_none(options, kind, from + 1);
    }
}

// ---------------------------------------------------------------------------
// Small settings and their defaults
// ---------------------------------------------------------------------------

/// How a fixed-image matting picks among several image paths.
#[derive(Debug, Clone, Copy, PartialEq, Eq, Structural)]
pub enum FixedImagePathSelection {
    Sequential,
    Random,
}

impl Default for FixedImagePathSelection {
    fn default() -> (s: Self)
        ensures
            s == FixedImagePathSelection::Sequential,
    {
        FixedImagePathSelection::Sequential
    }
}

/// How a matting with several colours picks among them.
#[derive(Debug, Clone, Copy, PartialEq, Eq, Structural)]
pub enum ColorSelection {
    Sequential,
    Random,
}

impl Default for ColorSelection {
    fn default() -> (s: Self)
        ensures
            s == ColorSelection::Sequential,
    {
        ColorSelection::Sequential
    }
}

/// The implementation of the blur matting.
#[derive(Debug, Clone, Copy, PartialEq, Eq, Structural)]
pub enum BlurBackend {
    Cpu,
    Neon,
}

impl Default for BlurBackend {
    fn default() -> (s: Self)
        ensures
            s == BlurBackend::Neon,
    {
        BlurBackend::Neon
    }
}

/// How a fixed background image is fitted to the screen.
#[derive(Debug, Clone, Copy, PartialEq, Eq, Structural)]
pub enum FixedImageFit {
    Cover,
    Contain,
    Stretch,
}

impl Default for FixedImageFit {
    fn default() -> (s: Self)
        ensures
            s == FixedImageFit::Cover,
    {
        FixedImageFit::Cover
    }
}

/// How a wipe or push transition picks among several angles.
#[derive(Debug, Clone, Copy, PartialEq, Eq, Structural)]
pub enum AngleSelection {
    Random,
    Sequential,
}

/// Whether the iris transition opens onto or closes over the photo.
#[derive(Debug, Clone, Copy, PartialEq, Eq, Structural)]
pub enum IrisDirection {
    Open,
    Close,
}

impl Default for IrisDirection {
    fn default() -> (s: Self)
        ensures
            s == IrisDirection::Open,
    {
        IrisDirection::Open
    }
}

/// The colour of a studio mat: a fixed RGB triple or the photo's average.
#[derive(Debug, Clone, Copy, PartialEq, Eq)]
pub enum StudioMatColor {
    Rgb([u8; 3]),
    PhotoAverage,
}

/// Settings of the fade transition.
#[derive(Debug, Clone, Copy, PartialEq, Eq, Structural)]
pub struct FadeTransition {
    pub through_black: bool,
}

impl Default for FadeTransition {
    fn default() -> (s: Self)
        ensures
            !s.through_black,
    {
        FadeTransition { through_black: false }
    }
}

/// Default length of each transition, in milliseconds.
pub open spec fn default_duration_ms_spec(kind: TransitionKind) -> u64 {
    match kind {
        TransitionKind::Fade => 400,
        TransitionKind::Wipe => 400,
        TransitionKind::Push => 400,
        TransitionKind::EInk => 1600,
        TransitionKind::Iris => 900,
    }
}

impl TransitionKind {
    /// How long this transition lasts when the configuration does not say.
    pub fn default_duration_ms(&self) -> (ms: u64)
        ensures
            ms == default_duration_ms_spec(*self),
            ms > 0,
    {
        match self {
            TransitionKind::Fade => 400,
            TransitionKind::Wipe => 400,
            TransitionKind::Push => 400,
            TransitionKind::EInk => 1600,
            TransitionKind::Iris => 900,
        }
    }
}

/// The e-ink stripe and flash counts as the renderer uses them: at least one
/// stripe, and at most six flashes.
pub fn eink_counts_normalized(stripe_count: u32, flash_count: u32) -> (r: (u32, u32))
    ensures
        r.0 == (if stripe_count == 0 {
            1
        } else {
            stripe_count
        }),
        r.1 == (if flash_count > 6 {
            6
        } else {
            flash_count
        }),
{
    let stripes = if stripe_count == 0 {
        1
    } else {
        stripe_count
    };
    let flashes = if flash_count > 6 {
        6
    } else {
        flash_count
    };
    (stripes, flashes)
}

/// The number of iris blades as the renderer draws them: between 3 and 12.
pub fn iris_blades_normalized(blades: u32) -> (r: u32)
    ensures
        3 <= r <= 12,
        3 <= blades <= 12 ==> r == blades,
        blades < 3 ==> r == 3,
        blades > 12 ==> r == 12,
{
    if blades < 3 {
        3
    } else if blades > 12 {
        12
    } else {
        blades
    }
}

// ---------------------------------------------------------------------------
// Matting resources prepared at start-up
// ---------------------------------------------------------------------------

/// Why a matting option cannot be prepared.
#[derive(Debug, Clone, Copy, PartialEq, Eq, Structural)]
pub enum MattingError {
    /// A colour matting without colours.
    EmptyPalette,
}

/// What a matting option resolves to once prepared: its colour, its studio
/// colour, or its background image (of type `B`).
#[derive(Debug)]
pub struct MattingRuntime<B> {
    pub fixed_color: Option<[u8; 3]>,
    pub studio_color: Option<StudioMatColor>,
    pub fixed_image: Option<Arc<B>>,
}

/// Another handle on the same shared value (`Arc::clone`).
#[verifier::external_body]
fn share<B>(value: &Arc<B>) -> (r: Arc<B>)
    ensures
        r == *value,
{
    Arc::clone(value)
}

impl<B> MattingRuntime<B> {
    /// Nothing prepared.
    pub fn empty() -> (r: Self)
        ensures
            r.fixed_color is None,
            r.studio_color is None,
            r.fixed_image is None,
    {
        MattingRuntime { fixed_color: None, studio_color: None, fixed_image: None }
    }

    /// Prepared for a fixed-colour matting: the first of `colors`; refused when
    /// there are none.
    pub fn for_fixed_colors(colors: &[[u8; 3]]) -> (r: Result<Self, MattingError>)
        ensures
            colors@.len() == 0 ==> r matches Err(MattingError::EmptyPalette),
            colors@.len() > 0 ==> (r matches Ok(rt) && rt.fixed_color == Some(colors@[0])
                && rt.studio_color is None && rt.fixed_image is None),
    {
        if colors.len() == 0 {
            Err(MattingError::EmptyPalette)
        } else {
            Ok(MattingRuntime { fixed_color: Some(colors[0]), studio_color: None, fixed_image: None })
        }
    }

    /// Prepared for a studio matting: the first of `colors`; refused when there
    /// are none.
    pub fn for_studio_colors(colors: &[StudioMatColor]) -> (r: Result<Self, MattingError>)
        ensures
            colors@.len() == 0 ==> r matches Err(MattingError::EmptyPalette),
            colors@.len() > 0 ==> (r matches Ok(rt) && rt.studio_color == Some(colors@[0])
                && rt.fixed_color is None && rt.fixed_image is None),
    {
        if colors.len() == 0 {
            Err(MattingError::EmptyPalette)
        } else {
            Ok(MattingRuntime { fixed_color: None, studio_color: Some(colors[0]), fixed_image: None })
        }
    }

    /// Prepared for a fixed-image matting with the first image that loaded, if any.
    pub fn for_fixed_image(image: Option<Arc<B>>) -> (r: Self)
        ensures
            r.fixed_image == image,
            r.fixed_color is None,
            r.studio_color is None,
    {
        MattingRuntime { fixed_color: None, studio_color: None, fixed_image: image }
    }

    /// The colour of a fixed-colour matting.
    pub fn fixed_color(&self) -> (r: Option<[u8; 3]>)
        ensures
            r == self.fixed_color,
    {
        self.fixed_color
    }

    /// The background image of a fixed-image matting, shared.
    pub fn fixed_image(&self) -> (r: Option<Arc<B>>)
        ensures
            r == self.fixed_image,
    {
        match &self.fixed_image {
            Some(image) => Some(share(image)),
            None => None,
        }
    }
}

impl<B> Default for MattingRuntime<B> {
    fn default() -> (r: Self)
        ensures
            r.fixed_color is None,
            r.studio_color is None,
            r.fixed_image is None,
    {
        MattingRuntime::empty()
    }
}

// ---------------------------------------------------------------------------
// Playlist weighting
// ---------------------------------------------------------------------------

/// Nanoseconds in a day: the default half-life of a new photo's extra weight.
pub const DAY_NS: u64 = 86_400_000_000_000;

/// How strongly new photos are favoured, and how fast that fades.
#[derive(Debug, Clone, Copy, PartialEq, Eq, Structural)]
pub struct PlaylistOptions {
    /// Initial multiplicity of a brand-new photo.
    pub new_multiplicity: u32,
    /// Half-life of the extra multiplicity, in nanoseconds.
    pub half_life_ns: u64,
}

/// Why the playlist options are refused.
#[derive(Debug, Clone, Copy, PartialEq, Eq, Structural)]
pub enum PlaylistError {
    /// `new-multiplicity` is below 1.
    MultiplicityBelowOne,
    /// `half-life` is zero.
    ZeroHalfLife,
}

impl PlaylistOptions {
    pub fn default_new_multiplicity() -> (r: u32)
        ensures
            r == 3,
    {
        3
    }

    pub fn default_half_life() -> (r: u64)
        ensures
            r == DAY_NS,
    {
        DAY_NS
    }

    /// Checks the options: a multiplicity of at least 1 and a positive half-life.
    pub fn validate(&self) -> (r: Result<(), PlaylistError>)
        ensures
            self.new_multiplicity < 1 ==> r == Err::<(), PlaylistError>(
                PlaylistError::MultiplicityBelowOne,
            ),
            self.new_multiplicity >= 1 && self.half_life_ns == 0 ==> r == Err::<(), PlaylistError>(
                PlaylistError::ZeroHalfLife,
            ),
            self.new_multiplicity >= 1 && self.half_life_ns > 0 ==> r is Ok,
    {
        if self.new_multiplicity < 1 {
            Err(PlaylistError::MultiplicityBelowOne)
        } else if self.half_life_ns == 0 {
            Err(PlaylistError::ZeroHalfLife)
        } else {
            Ok(())
        }
    }
}

impl Default for PlaylistOptions {
    fn default() -> (r: Self)
        ensures
            r.new_multiplicity == 3,
            r.half_life_ns == DAY_NS,
    {
        PlaylistOptions {
            new_multiplicity: PlaylistOptions::default_new_multiplicity(),
            half_life_ns: PlaylistOptions::default_half_life(),
        }
    }
}

/// A field that an inline matting entry may set.
#[derive(Debug, Clone, Copy, PartialEq, Eq, Structural)]
pub enum MattingField {
    MinimumMatPercentage,
    MaxUpscaleFactor,
    Colors,
    Color,
    ColorSelection,
    Sigma,
    SampleScale,
    Backend,
    BevelWidthPx,
    BevelColor,
    TextureStrength,
    WarpPeriodPx,
    WeftPeriodPx,
    Path,
    PathSelection,
    Fit,
}

/// The configuration name of a matting field.
pub open spec fn matting_field_name(f: MattingField) -> Seq<char> {
    match f {
        MattingField::MinimumMatPercentage => "minimum-mat-percentage"@,
        MattingField::MaxUpscaleFactor => "max-upscale-factor"@,
        MattingField::Colors => "colors"@,
        MattingField::Color => "color"@,
        MattingField::ColorSelection => "color-selection"@,
        MattingField::Sigma => "sigma"@,
        MattingField::SampleScale => "sample-scale"@,
        MattingField::Backend => "backend"@,
        MattingField::BevelWidthPx => "bevel-width-px"@,
        MattingField::BevelColor => "bevel-color"@,
        MattingField::TextureStrength => "texture-strength"@,
        MattingField::WarpPeriodPx => "warp-period-px"@,
        MattingField::WeftPeriodPx => "weft-period-px"@,
        MattingField::Path => "path"@,
        MattingField::PathSelection => "path-selection"@,
        MattingField::Fit => "fit"@,
    }
}

/// Whether an entry of kind `kind` accepts the field `f`.
pub open spec fn matting_field_allowed(kind: MattingKind, f: MattingField) -> bool {
    match f {
        MattingField::MinimumMatPercentage => true,
        MattingField::MaxUpscaleFactor => true,
        MattingField::Colors => kind == MattingKind::FixedColor || kind == MattingKind::Studio,
        MattingField::Color => kind == MattingKind::FixedColor,
        MattingField::ColorSelection => kind == MattingKind::FixedColor || kind == MattingKind::Studio,
        MattingField::Sigma => kind == MattingKind::Blur,
        MattingField::SampleScale => kind == MattingKind::Blur,
        MattingField::Backend => kind == MattingKind::Blur,
        MattingField::BevelWidthPx => kind == MattingKind::Studio,
        MattingField::BevelColor => kind == MattingKind::Studio,
        MattingField::TextureStrength => kind == MattingKind::Studio,
        MattingField::WarpPeriodPx => kind == MattingKind::Studio,
        MattingField::WeftPeriodPx => kind == MattingKind::Studio,
        MattingField::Path => kind == MattingKind::FixedImage,
        MattingField::PathSelection => kind == MattingKind::FixedImage,
        MattingField::Fit => kind == MattingKind::FixedImage,
    }
}

/// The field whose configuration name is `key`, if any.
pub open spec fn matting_field_named(key: Seq<char>) -> Option<MattingField> {
    if key == "minimum-mat-percentage"@ {
        Some(MattingField::MinimumMatPercentage)
    } else if key == "max-upscale-factor"@ {
        Some(MattingField::MaxUpscaleFactor)
    } else if key == "colors"@ {
        Some(MattingField::Colors)
    } else if key == "color"@ {
        Some(MattingField::Color)
    } else if key == "color-selection"@ {
        Some(MattingField::ColorSelection)
    } else if key == "sigma"@ {
        Some(MattingField::Sigma)
    } else if key == "sample-scale"@ {
        Some(MattingField::SampleScale)
    } else if key == "backend"@ {
        Some(MattingField::Backend)
    } else if key == "bevel-width-px"@ {
        Some(MattingField::BevelWidthPx)
    } else if key == "bevel-color"@ {
        Some(MattingField::BevelColor)
    } else if key == "texture-strength"@ {
        Some(MattingField::TextureStrength)
    } else if key == "warp-period-px"@ {
        Some(MattingField::WarpPeriodPx)
    } else if key == "weft-period-px"@ {
        Some(MattingField::WeftPeriodPx)
    } else if key == "path"@ {
        Some(MattingField::Path)
    } else if key == "path-selection"@ {
        Some(MattingField::PathSelection)
    } else if key == "fit"@ {
        Some(MattingField::Fit)
    } else {
        None
    }
}

/// The field named `key` that an entry of kind `kind` accepts, if any;
/// `None` means the key is unknown for that kind.
pub fn classify_matting_field(kind: MattingKind, key: &str) -> (r: Option<MattingField>)
    ensures
        r == (match matting_field_named(key@) {
            Some(f) => if matting_field_allowed(kind, f) {
                Some(f)
            } else {
                None
            },
            None => None,
        }),
        r matches Some(f) ==> matting_field_name(f) == key@ && matting_field_allowed(kind, f),
{
    if str_equal(key, "minimum-mat-percentage") {
        Some(MattingField::MinimumMatPercentage)
    } else if str_equal(key, "max-upscale-factor") {
        Some(MattingField::MaxUpscaleFactor)
    } else if str_equal(key, "colors") {
        if kind == MattingKind::FixedColor || kind == MattingKind::Studio {
            Some(MattingField::Colors)
        } else {
            None
        }
    } else if str_equal(key, "color") {
        if kind == MattingKind::FixedColor {
            Some(MattingField::Color)
        } else {
            None
        }
    } else if str_equal(key, "color-selection") {
        if kind == MattingKind::FixedColor || kind == MattingKind::Studio {
            Some(MattingField::ColorSelection)
        } else {
            None
        }
    } else if str_equal(key, "sigma") {
        if kind == MattingKind::Blur {
            Some(MattingField::Sigma)
        } else {
            None
        }
    } else if str_equal(key, "sample-scale") {
        if kind == MattingKind::Blur {
            Some(MattingField::SampleScale)
        } else {
            None
        }
    } else if str_equal(key, "backend") {
        if kind == MattingKind::Blur {
            Some(MattingField::Backend)
        } else {
            None
        }
    } else if str_equal(key, "bevel-width-px") {
        if kind == MattingKind::Studio {
            Some(MattingField::BevelWidthPx)
        } else {
            None
        }
    } else if str_equal(key, "bevel-color") {
        if kind == MattingKind::Studio {
            Some(MattingField::BevelColor)
        } else {
            None
        }
    } else if str_equal(key, "texture-strength") {
        if kind == MattingKind::Studio {
            Some(MattingField::TextureStrength)
        } else {
            None
        }
    } else if str_equal(key, "warp-period-px") {
        if kind == MattingKind::Studio {
            Some(MattingField::WarpPeriodPx)
        } else {
            None
        }
    } else if str_equal(key, "weft-period-px") {
        if kind == MattingKind::Studio {
            Some(MattingField::WeftPeriodPx)
        } else {
            None
        }
    } else if str_equal(key, "path") {
        if kind == MattingKind::FixedImage {
            Some(MattingField::Path)
        } else {
            None
        }
    } else if str_equal(key, "path-selection") {
        if kind == MattingKind::FixedImage {
            Some(MattingField::PathSelection)
        } else {
            None
        }
    } else if str_equal(key, "fit") {
        if kind == MattingKind::FixedImage {
            Some(MattingField::Fit)
        } else {
            None
        }
    } else {
        None
    }
}

/// A field that an inline transition entry may set.
#[derive(Debug, Clone, Copy, PartialEq, Eq, Structural)]
pub enum TransitionField {
    DurationMs,
    ThroughBlack,
    AngleListDegrees,
    AngleSelection,
    AngleJitterDegrees,
    Softness,
    FlashCount,
    RevealPortion,
    StripeCount,
    FlashColor,
    Blades,
    RotateRadians,
    Direction,
    FillRgba,
    StrokeRgba,
    StrokeWidth,
    Tolerance,
}

/// The configuration name of a transition field.
pub open spec fn transition_field_name(f: TransitionField) -> Seq<char> {
    match f {
        TransitionField::DurationMs => "duration-ms"@,
        TransitionField::ThroughBlack => "through-black"@,
        TransitionField::AngleListDegrees => "angle-list-degrees"@,
        TransitionField::AngleSelection => "angle-selection"@,
        TransitionField::AngleJitterDegrees => "angle-jitter-degrees"@,
        TransitionField::Softness => "softness"@,
        TransitionField::FlashCount => "flash-count"@,
        TransitionField::RevealPortion => "reveal-portion"@,
        TransitionField::StripeCount => "stripe-count"@,
        TransitionField::FlashColor => "flash-color"@,
        TransitionField::Blades => "blades"@,
        TransitionField::RotateRadians => "rotate-radians"@,
        TransitionField::Direction => "direction"@,
        TransitionField::FillRgba => "fill-rgba"@,
        TransitionField::StrokeRgba => "stroke-rgba"@,
        TransitionField::StrokeWidth => "stroke-width"@,
        TransitionField::Tolerance => "tolerance"@,
    }
}

/// Whether an entry of kind `kind` accepts the field `f`.
pub open spec fn transition_field_allowed(kind: TransitionKind, f: TransitionField) -> bool {
    match f {
        TransitionField::DurationMs => true,
        TransitionField::ThroughBlack => kind == TransitionKind::Fade,
        TransitionField::AngleListDegrees => kind == TransitionKind::Wipe || kind == TransitionKind::Push,
        TransitionField::AngleSelection => kind == TransitionKind::Wipe || kind == TransitionKind::Push,
        TransitionField::AngleJitterDegrees => kind == TransitionKind::Wipe || kind == TransitionKind::Push,
        TransitionField::Softness => kind == TransitionKind::Wipe,
        TransitionField::FlashCount => kind == TransitionKind::EInk,
        TransitionField::RevealPortion => kind == TransitionKind::EInk,
        TransitionField::StripeCount => kind == TransitionKind::EInk,
        TransitionField::FlashColor => kind == TransitionKind::EInk,
        TransitionField::Blades => kind == TransitionKind::Iris,
        TransitionField::RotateRadians => kind == TransitionKind::Iris,
        TransitionField::Direction => kind == TransitionKind::Iris,
        TransitionField::FillRgba => kind == TransitionKind::Iris,
        TransitionField::StrokeRgba => kind == TransitionKind::Iris,
        TransitionField::StrokeWidth => kind == TransitionKind::Iris,
        TransitionField::Tolerance => kind == TransitionKind::Iris,
    }
}

/// The field whose configuration name is `key`, if any.
pub open spec fn transition_field_named(key: Seq<char>) -> Option<TransitionField> {
    if key == "duration-ms"@ {
        Some(TransitionField::DurationMs)
    } else if key == "through-black"@ {
        Some(TransitionField::ThroughBlack)
    } else if key == "angle-list-degrees"@ {
        Some(TransitionField::AngleListDegrees)
    } else if key == "angle-selection"@ {
        Some(TransitionField::AngleSelection)
    } else if key == "angle-jitter-degrees"@ {
        Some(TransitionField::AngleJitterDegrees)
    } else if key == "softness"@ {
        Some(TransitionField::Softness)
    } else if key == "flash-count"@ {
        Some(TransitionField::FlashCount)
    } else if key == "reveal-portion"@ {
        Some(TransitionField::RevealPortion)
    } else if key == "stripe-count"@ {
        Some(TransitionField::StripeCount)
    } else if key == "flash-color"@ {
        Some(TransitionField::FlashColor)
    } else if key == "blades"@ {
        Some(TransitionField::Blades)
    } else if key == "rotate-radians"@ {
        Some(TransitionField::RotateRadians)
    } else if key == "direction"@ {
        Some(TransitionField::Direction)
    } else if key == "fill-rgba"@ {
        Some(TransitionField::FillRgba)
    } else if key == "stroke-rgba"@ {
        Some(TransitionField::StrokeRgba)
    } else if key == "stroke-width"@ {
        Some(TransitionField::StrokeWidth)
    } else if key == "tolerance"@ {
        Some(TransitionField::Tolerance)
    } else {
        None
    }
}

/// The field named `key` that an entry of kind `kind` accepts, if any;
/// `None` means the key is unknown for that kind.
pub fn classify_transition_field(kind: TransitionKind, key: &str) -> (r: Option<TransitionField>)
    ensures
        r == (match transition_field_named(key@) {
            Some(f) => if transition_field_allowed(kind, f) {
                Some(f)
            } else {
                None
            },
            None => None,
        }),
        r matches Some(f) ==> transition_field_name(f) == key@ && transition_field_allowed(kind, f),
{
    if str_equal(key, "duration-ms") {
        Some(TransitionField::DurationMs)
    } else if str_equal(key, "through-black") {
        if kind == TransitionKind::Fade {
            Some(TransitionField::ThroughBlack)
        } else {
            None
        }
    } else if str_equal(key, "angle-list-degrees") {
        if kind == TransitionKind::Wipe || kind == TransitionKind::Push {
            Some(TransitionField::AngleListDegrees)
        } else {
            None
        }
    } else if str_equal(key, "angle-selection") {
        if kind == TransitionKind::Wipe || kind == TransitionKind::Push {
            Some(TransitionField::AngleSelection)
        } else {
            None
        }
    } else if str_equal(key, "angle-jitter-degrees") {
        if kind == TransitionKind::Wipe || kind == TransitionKind::Push {
            Some(TransitionField::AngleJitterDegrees)
        } else {
            None
        }
    } else if str_equal(key, "softness") {
        if kind == TransitionKind::Wipe {
            Some(TransitionField::Softness)
        } else {
            None
        }
    } else if str_equal(key, "flash-count") {
        if kind == TransitionKind::EInk {
            Some(TransitionField::FlashCount)
        } else {
            None
        }
    } else if str_equal(key, "reveal-portion") {
        if kind == TransitionKind::EInk {
            Some(TransitionField::RevealPortion)
        } else {
            None
        }
    } else if str_equal(key, "stripe-count") {
        if kind == TransitionKind::EInk {
            Some(TransitionField::StripeCount)
        } else {
            None
        }
    } else if str_equal(key, "flash-color") {
        if kind == TransitionKind::EInk {
            Some(TransitionField::FlashColor)
        } else {
            None
        }
    } else if str_equal(key, "blades") {
        if kind == TransitionKind::Iris {
            Some(TransitionField::Blades)
        } else {
            None
        }
    } else if str_equal(key, "rotate-radians") {
        if kind == TransitionKind::Iris {
            Some(TransitionField::RotateRadians)
        } else {
            None
        }
    } else if str_equal(key, "direction") {
        if kind == TransitionKind::Iris {
            Some(TransitionField::Direction)
        } else {
            None
        }
    } else if str_equal(key, "fill-rgba") {
        if kind == TransitionKind::Iris {
            Some(TransitionField::FillRgba)
        } else {
            None
        }
    } else if str_equal(key, "stroke-rgba") {
        if kind == TransitionKind::Iris {
            Some(TransitionField::StrokeRgba)
        } else {
            None
        }
    } else if str_equal(key, "stroke-width") {
        if kind == TransitionKind::Iris {
            Some(TransitionField::StrokeWidth)
        } else {
            None
        }
    } else if str_equal(key, "tolerance") {
        if kind == TransitionKind::Iris {
            Some(TransitionField::Tolerance)
        } else {
            None
        }
    } else {
        None
    }
}

/// Whether two matting fields fill the same setting (`colors` and `color` both
/// set the palette).
pub open spec fn same_setting(a: MattingField, b: MattingField) -> bool {
    ||| a == b
    ||| (a == MattingField::Colors && b == MattingField::Color)
    ||| (a == MattingField::Color && b == MattingField::Colors)
}

fn same_setting_exec(a: MattingField, b: MattingField) -> (r: bool)
    ensures
        r == same_setting(a, b),
{
    a == b || (a == MattingField::Colors && b == MattingField::Color) || (a == MattingField::Color
        && b == MattingField::Colors)
}

/// The settings already filled by an inline matting entry.
#[derive(Debug, Clone)]
pub struct MattingFieldSet {
    pub seen: Vec<MattingField>,
}

impl MattingFieldSet {
    pub fn new() -> (s: Self)
        ensures
            s.seen@.len() == 0,
    {
        MattingFieldSet { seen: Vec::new() }
    }

    /// Records that `f` was given; refused, and nothing recorded, when its
    /// setting was already filled.
    pub fn record(&mut self, f: MattingField) -> (r: Result<(), MattingField>)
        ensures
            (exists|i: int| 0 <= i < old(self).seen@.len() && same_setting(old(self).seen@[i], f))
                ==> r == Err::<(), MattingField>(f) && final(self).seen@ == old(self).seen@,
            !(exists|i: int| 0 <= i < old(self).seen@.len() && same_setting(old(self).seen@[i], f))
                ==> r is Ok && final(self).seen@ == old(self).seen@.push(f),
    {
        let mut i: usize = 0;
        while i < self.seen.len()
            invariant
                0 <= i <= self.seen@.len(),
                self.seen@ == old(self).seen@,
                forall|j: int| 0 <= j < i ==> !same_setting(self.seen@[j], f),
            decreases self.seen.len() - i,
        {
            if same_setting_exec(self.seen[i], f) {
                return Err(f);
            }
            i = i + 1;
        }
        self.seen.push(f);
        Ok(())
    }
}

// ---------------------------------------------------------------------------
// Greeting and sleep screens
// ---------------------------------------------------------------------------

/// Whether `s` holds nothing but white space.
pub open spec fn is_blank(s: Seq<char>) -> bool {
    trim_spec(s).len() == 0
}

/// Whether `s` holds nothing but white space.
pub fn blank(s: &str) -> (b: bool)
    ensures
        b == is_blank(s@),
{
    let cs = chars_of(s);
    let t = trim_chars(&cs);
    t.len() == 0
}

/// The message shown on a greeting or sleep screen: the configured one unless
/// it is missing or blank, else `Initializing…`.
pub fn message_or_default(message: &Option<String>) -> (r: &str)
    ensures
        (message matches Some(m) && !is_blank(m@)) ==> r@ == message->0@,
        !(message matches Some(m) && !is_blank(m@)) ==> r@ == "Initializing\u{2026}"@,
{
    match message {
        Some(m) => {
            if !blank(m.as_str()) {
                return m.as_str();
            }
        },
        None => {},
    }
    "Initializing\u{2026}"
}

/// Colour overrides of a greeting or sleep screen.
#[derive(Debug, Clone)]
pub struct GreetingScreenColorsConfig {
    pub background: Option<String>,
    pub font: Option<String>,
    pub accent: Option<String>,
}

/// Which colour override of a screen is meant.
#[derive(Debug, Clone, Copy, PartialEq, Eq, Structural)]
pub enum ScreenColor {
    Background,
    Font,
    Accent,
}

pub open spec fn given_blank(v: Option<String>) -> bool {
    v matches Some(s) && is_blank(s@)
}

impl GreetingScreenColorsConfig {
    /// No overrides.
    pub fn new() -> (c: Self)
        ensures
            c.background is None,
            c.font is None,
            c.accent is None,
    {
        GreetingScreenColorsConfig { background: None, font: None, accent: None }
    }

    /// The first override, in the order background, font, accent, that is
    /// given but blank; blank overrides are refused by the configuration.
    pub fn first_blank(&self) -> (r: Option<ScreenColor>)
        ensures
            r == (if given_blank(self.background) {
                Some(ScreenColor::Background)
            } else if given_blank(self.font) {
                Some(ScreenColor::Font)
            } else if given_blank(self.accent) {
                Some(ScreenColor::Accent)
            } else {
                None::<ScreenColor>
            }),
    {
        if given_blank_exec(&self.background) {
            Some(ScreenColor::Background)
        } else if given_blank_exec(&self.font) {
            Some(ScreenColor::Font)
        } else if given_blank_exec(&self.accent) {
            Some(ScreenColor::Accent)
        } else {
            None
        }
    }
}

impl Default for GreetingScreenColorsConfig {
    fn default() -> (c: Self)
        ensures
            c.background is None,
            c.font is None,
            c.accent is None,
    {
        GreetingScreenColorsConfig::new()
    }
}

fn given_blank_exec(v: &Option<String>) -> (b: bool)
    ensures
        b == given_blank(*v),
{
    match v {
        Some(s) => blank(s.as_str()),
        None => false,
    }
}

proof fn lemma_singleton_contains<T>(x: T)
    ensures
        seq![x].contains(x),
{
    assert(seq![x][0] == x);
}

/// A copy of `entries`.
fn copy_entries<K: Copy>(entries: &Vec<SelectionEntry<K>>) -> (r: Vec<SelectionEntry<K>>)
    ensures
        r@ == entries@,
{
    let mut r: Vec<SelectionEntry<K>> = Vec::new();
    let mut i: usize = 0;
    while i < entries.len()
        invariant
            0 <= i <= entries@.len(),
            r@ == entries@.subrange(0, i as int),
        decreases entries.len() - i,
    {
        r.push(entries[i]);
        i = i + 1;
    }
    r
}

/// Why the viewer's runtime settings are refused.
#[derive(Debug, Clone, Copy, PartialEq, Eq, Structural)]
pub enum RuntimeLimitError {
    ZeroPreload,
    ZeroConcurrentDecodes,
    OversampleNotPositive,
    ZeroDwell,
    EmptySocketPath,
    SocketPathWithoutFileName,
}

/// The first rule, in order, that the viewer's runtime settings break: at
/// least one preloaded image, at least one concurrent decode, a positive
/// oversample factor (`oversample_positive`, a floating-point test made by the
/// caller), a positive dwell, and a control socket path that is not empty and
/// names a file.
pub open spec fn runtime_limit_problem(
    viewer_preload_count: usize,
    loader_max_concurrent_decodes: usize,
    oversample_positive: bool,
    dwell_ms: u64,
    control_socket_path: Seq<char>,
) -> Option<RuntimeLimitError> {
    if viewer_preload_count == 0 {
        Some(RuntimeLimitError::ZeroPreload)
    } else if loader_max_concurrent_decodes == 0 {
        Some(RuntimeLimitError::ZeroConcurrentDecodes)
    } else if !oversample_positive {
        Some(RuntimeLimitError::OversampleNotPositive)
    } else if dwell_ms == 0 {
        Some(RuntimeLimitError::ZeroDwell)
    } else if control_socket_path.len() == 0 {
        Some(RuntimeLimitError::EmptySocketPath)
    } else if crate::daemon::file_name_spec(control_socket_path) is None {
        Some(RuntimeLimitError::SocketPathWithoutFileName)
    } else {
        None
    }
}

/// Checks the viewer's runtime settings (see `runtime_limit_problem`).
pub fn check_runtime_limits(
    viewer_preload_count: usize,
    loader_max_concurrent_decodes: usize,
    oversample_positive: bool,
    dwell_ms: u64,
    control_socket_path: &str,
) -> (r: Result<(), RuntimeLimitError>)
    ensures
        match runtime_limit_problem(
            viewer_preload_count,
            loader_max_concurrent_decodes,
            oversample_positive,
            dwell_ms,
            control_socket_path@,
        ) {
            Some(e) => r == Err::<(), RuntimeLimitError>(e),
            None => r is Ok,
        },
{
    if viewer_preload_count == 0 {
        return Err(RuntimeLimitError::ZeroPreload);
    }
    if loader_max_concurrent_decodes == 0 {
        return Err(RuntimeLimitError::ZeroConcurrentDecodes);
    }
    if !oversample_positive {
        return Err(RuntimeLimitError::OversampleNotPositive);
    }
    if dwell_ms == 0 {
        return Err(RuntimeLimitError::ZeroDwell);
    }
    if control_socket_path.unicode_len() == 0 {
        return Err(RuntimeLimitError::EmptySocketPath);
    }
    if crate::daemon::file_name(control_socket_path).is_none() {
        return Err(RuntimeLimitError::SocketPathWithoutFileName);
    }
    Ok(())
}

impl RuntimeLimitError {
    /// The message for this error, as the configuration check words it.
    pub fn message(&self) -> (m: &'static str)
        ensures
            m@ == runtime_limit_text(*self),
    {
        match self {
            RuntimeLimitError::ZeroPreload => "viewer-preload-count must be greater than zero",
            RuntimeLimitError::ZeroConcurrentDecodes => "loader-max-concurrent-decodes must be greater than zero",
            RuntimeLimitError::OversampleNotPositive => "oversample must be positive",
            RuntimeLimitError::ZeroDwell => "dwell-ms must be greater than zero",
            RuntimeLimitError::EmptySocketPath => "control-socket-path must not be empty",
            RuntimeLimitError::SocketPathWithoutFileName => "control-socket-path must include a socket file name",
        }
    }
}

/// The message of a runtime-settings error.
pub open spec fn runtime_limit_text(e: RuntimeLimitError) -> Seq<char> {
    match e {
        RuntimeLimitError::ZeroPreload => "viewer-preload-count must be greater than zero"@,
        RuntimeLimitError::ZeroConcurrentDecodes => "loader-max-concurrent-decodes must be greater than zero"@,
        RuntimeLimitError::OversampleNotPositive => "oversample must be positive"@,
        RuntimeLimitError::ZeroDwell => "dwell-ms must be greater than zero"@,
        RuntimeLimitError::EmptySocketPath => "control-socket-path must not be empty"@,
        RuntimeLimitError::SocketPathWithoutFileName => "control-socket-path must include a socket file name"@,
    }
}

} // verus!
