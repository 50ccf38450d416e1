//! Reference sounds and what preprocessing has found out about them.

use vstd::prelude::*;
use crate::config::optional_text;
use crate::text::{contains_name, views};

verus! {

/// What preprocessing yields for a reference sound.
#[derive(Clone, Debug, PartialEq, Eq)]
pub struct Reference {
    pub sound_name: String,
    /// Where the spectrogram of the sound was written, if one was asked for.
    pub spectrogram: Option<String>,
    /// The score of the sound against itself, in thousandths: the best score that a
    /// call sending this sound can reach.
    pub baseline_score: u32,
}

/// The value of a `Reference`, without its name.
#[verifier::ext_equal]
pub struct ReferenceView {
    pub spectrogram: Option<Seq<char>>,
    pub baseline_score: u32,
}

impl View for Reference {
    type V = ReferenceView;

    open spec fn view(&self) -> ReferenceView {
        ReferenceView {
            spectrogram: optional_text(self.spectrogram),
            baseline_score: self.baseline_score,
        }
    }
}

/// What is to be done for a reference sound.
#[derive(Clone, Copy, Debug, PartialEq, Eq, Structural)]
pub enum PreprocessStep {
    /// The sound was preprocessed before: what was found then is used again.
    Reuse,
    /// The sound has to be scored against itself, and drawn if a spectrogram is asked
    /// for.
    Compute { spectrogram: bool },
}

/// What is known of the sounds after `reference` was found for the sound `name`: what
/// was known before, if that sound was known, and else the same and `reference`.
pub open spec fn remember(
    known: Map<Seq<char>, ReferenceView>,
    name: Seq<char>,
    reference: ReferenceView,
) -> Map<Seq<char>, ReferenceView> {
    if known.contains_key(name) {
        known
    } else {
        known.insert(name, reference)
    }
}

/// What is to be done for the sound `name`, given what is known.
pub open spec fn step_for(
    known: Map<Seq<char>, ReferenceView>,
    name: Seq<char>,
    spectrogram: bool,
) -> PreprocessStep {
    if known.contains_key(name) {
        PreprocessStep::Reuse
    } else {
        PreprocessStep::Compute { spectrogram }
    }
}

/// Those of `names` that are not known, each once, in the order in which they first
/// occur.
pub open spec fn unknown_among(known: Map<Seq<char>, ReferenceView>, names: Seq<Seq<char>>) -> Seq<
    Seq<char>,
>
    decreases names.len(),
{
    if names.len() == 0 {
        Seq::empty()
    } else {
        let earlier = unknown_among(known, names.drop_last());
        if known.contains_key(names.last()) || earlier.contains(names.last()) {
            earlier
        } else {
            earlier.push(names.last())
        }
    }
}

/// The reference sounds that were preprocessed, by name.
pub struct ReferenceStore {
    entries: Vec<Reference>,
}

impl ReferenceStore {
    /// Whether the store is in order: it holds no sound twice.
    pub closed spec fn wf(&self) -> bool {
        forall|i: int, j: int|
            0 <= i < j < self.entries.len() ==> self.entries[i].sound_name@
                != self.entries[j].sound_name@
    }

    spec fn holds_at(&self, name: Seq<char>, i: int) -> bool {
        0 <= i < self.entries.len() && self.entries[i].sound_name@ == name
    }

    /// What is known of each sound.
    pub closed spec fn view(&self) -> Map<Seq<char>, ReferenceView> {
        Map::new(
            |name: Seq<char>| exists|i: int| self.holds_at(name, i),
            |name: Seq<char>| self.entries[choose|i: int| self.holds_at(name, i)]@,
        )
    }

    /// A store that knows no sound.
    pub fn new() -> (r: ReferenceStore)
        ensures
            r.wf(),
            r@ == Map::<Seq<char>, ReferenceView>::empty(),
    {
        ReferenceStore { entries: Vec::new() }
    }

    fn find(&self, name: &str) -> (r: Option<usize>)
        requires
            self.wf(),
        ensures
            match r {
                Some(i) => self.holds_at(name@, i as int) && self@.contains_key(name@)
                    && self@[name@] == self.entries[i as int]@,
                None => !self@.contains_key(name@),
            },
    {
        let wanted = String::from_str(name);
        let mut i: usize = 0;
        while i < self.entries.len()
            invariant
                self.wf(),
                i <= self.entries.len(),
                wanted@ == name@,
                forall|j: int| 0 <= j < i ==> !self.holds_at(name@, j),
            decreases self.entries.len() - i,
        {
            if self.entries[i].sound_name == wanted {
                proof {
                    assert(self.holds_at(name@, i as int));
                }
                return Some(i);
            }
            i = i + 1;
        }
        None
    }

    /// What is known of the sound `name`.
    pub fn lookup(&self, name: &str) -> (r: Option<&Reference>)
        requires
            self.wf(),
        ensures
            match r {
                Some(reference) => self@.contains_key(name@) && self@[name@] == reference@
                    && reference.sound_name@ == name@,
                None => !self@.contains_key(name@),
            },
    {
        match self.find(name) {
            Some(i) => Some(&self.entries[i]),
            None => None,
        }
    }

    /// What is to be done for the sound `name`: nothing if it is known.
    pub fn step(&self, name: &str, spectrogram: bool) -> (r: PreprocessStep)
        requires
            self.wf(),
        ensures
            r == step_for(self@, name@, spectrogram),
    {
        match self.find(name) {
            Some(_) => PreprocessStep::Reuse,
            None => PreprocessStep::Compute { spectrogram },
        }
    }

    /// The sounds among `names` that have to be preprocessed: those that are not
    /// known, each once.
    pub fn to_compute(&self, names: &Vec<String>) -> (r: Vec<String>)
        requires
            self.wf(),
        ensures
            views(r@) == unknown_among(self@, views(names@)),
    {
        let mut pending: Vec<String> = Vec::new();
        let mut i: usize = 0;
        while i < names.len()
            invariant
                self.wf(),
                i <= names.len(),
                views(pending@) == unknown_among(self@, views(names@).take(i as int)),
            decreases names.len() - i,
        {
            proof {
                let upto = views(names@).take(i + 1);
                assert(upto.drop_last() =~= views(names@).take(i as int));
            }
            let known = self.find(names[i].as_str()).is_some();
            if !known && !contains_name(&pending, &names[i]) {
                pending.push(names[i].clone());
            }
            i = i + 1;
        }
        assert(views(names@).take(i as int) =~= views(names@));
        pending
    }

    /// Takes note of what was found for a sound, unless the sound is known already:
    /// then what is known stays. Says whether the note was taken.
    pub fn record(&mut self, reference: Reference) -> (stored: bool)
        requires
            old(self).wf(),
        ensures
            final(self).wf(),
            stored == !old(self)@.contains_key(reference.sound_name@),
            final(self)@ == remember(old(self)@, reference.sound_name@, reference@),
    {
        let ghost before = *self;
        let ghost name = reference.sound_name@;
        let ghost value = reference@;
        match self.find(reference.sound_name.as_str()) {
            Some(_) => false,
            None => {
                assert forall|j: int| 0 <= j < self.entries.len() implies self.entries[j].sound_name@
                    != name by {
                    if self.entries[j].sound_name@ == name {
                        assert(self.holds_at(name, j));
                    }
                }
                self.entries.push(reference);
                proof {
                    let n = before.entries.len() as int;
                    assert(self.holds_at(name, n));
                    assert forall|other: Seq<char>| #[trigger]
                        self@.contains_key(other) == before@.insert(name, value).contains_key(
                            other,
                        ) by {
                        if other != name {
                            if before@.contains_key(other) {
                                let i = choose|i: int| before.holds_at(other, i);
                                assert(self.holds_at(other, i));
                            }
                            if self@.contains_key(other) {
                                let i = choose|i: int| self.holds_at(other, i);
                                assert(before.holds_at(other, i));
                            }
                        }
                    }
                }
                true
            },
        }
    }
}

/// Preprocessing a sound again changes nothing: after the first time the sound is
/// known, the step for it is to reuse what is known, and what a second time would
/// find is not taken; the baseline score stays what it was.
pub proof fn lemma_preprocess_is_idempotent(
    known: Map<Seq<char>, ReferenceView>,
    name: Seq<char>,
    first: ReferenceView,
    second: ReferenceView,
    spectrogram: bool,
)
    ensures
        step_for(remember(known, name, first), name, spectrogram) == PreprocessStep::Reuse,
        remember(remember(known, name, first), name, second) == remember(known, name, first),
        remember(remember(known, name, first), name, second)[name].baseline_score == remember(
            known,
            name,
            first,
        )[name].baseline_score,
        !known.contains_key(name) ==> remember(known, name, first)[name] == first,
{
}

/// Taking note of one sound leaves what is known of every other sound as it was.
pub proof fn lemma_remember_keeps_others(
    known: Map<Seq<char>, ReferenceView>,
    name: Seq<char>,
    reference: ReferenceView,
    other: Seq<char>,
)
    requires
        other != name,
    ensures
        remember(known, name, reference).contains_key(other) == known.contains_key(other),
        known.contains_key(other) ==> remember(known, name, reference)[other] == known[other],
{
}

/// Once the sounds that have to be preprocessed have been, none of the same names has
/// to be preprocessed again.
pub proof fn lemma_nothing_left_to_compute(
    known: Map<Seq<char>, ReferenceView>,
    names: Seq<Seq<char>>,
)
    requires
        forall|i: int| 0 <= i < names.len() ==> known.contains_key(#[trigger] names[i]),
    ensures
        unknown_among(known, names) == Seq::<Seq<char>>::empty(),
    decreases names.len(),
{
    if names.len() > 0 {
        lemma_nothing_left_to_compute(known, names.drop_last());
    }
}

} // verus!
