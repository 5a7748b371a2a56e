//! Presets: the symbols of well-known packages, listed by hand for packages
//! whose sources are not there to scan.

use vstd::prelude::*;

verus! {

/// The symbols that one package is known to export.
#[derive(Clone, Debug, PartialEq, Eq)]
pub struct Preset {
    /// The name of the package, as import statements write it.
    pub form: String,
    /// The names that can be imported from it, in their listed order.
    pub imports: Vec<String>,
}

/// A [`Preset`] as mathematical text.
pub struct PresetView {
    pub form: Seq<char>,
    pub imports: Seq<Seq<char>>,
}

impl View for Preset {
    type V = PresetView;

    open spec fn view(&self) -> PresetView {
        PresetView { form: self.form@, imports: self.imports@.map_values(|name: String| name@) }
    }
}

/// The preset of the package `react`: its hook functions.
pub open spec fn react_preset() -> PresetView {
    PresetView {
        form: "react"@,
        imports: seq![
            "useState"@,
            "useCallback"@,
            "useMemo"@,
            "useEffect"@,
            "useRef"@,
            "useContext"@,
            "useReducer"@,
        ],
    }
}

/// The preset of the package `react`.
pub fn get_react_preset() -> (preset: Preset)
    ensures
        preset@ == react_preset(),
{
    let preset = Preset {
        form: "react".to_string(),
        imports: vec![
            "useState".to_string(),
            "useCallback".to_string(),
            "useMemo".to_string(),
            "useEffect".to_string(),
            "useRef".to_string(),
            "useContext".to_string(),
            "useReducer".to_string(),
        ],
    };
    assert(preset@.imports =~= react_preset().imports);
    preset
}

/// A registry of presets, each found under the name of its package.
pub struct PresetTable {
    presets: Vec<Preset>,
}

impl PresetTable {
    /// The registered presets, in the order in which they are kept.
    pub closed spec fn entries(&self) -> Seq<PresetView> {
        self.presets@.map_values(|p: Preset| p@)
    }

    /// Whether `i` is the place of the preset of `form`.
    pub open spec fn holds_at(&self, form: Seq<char>, i: int) -> bool {
        0 <= i < self.entries().len() && self.entries()[i].form == form
    }

    /// No two registered presets are of the same package.
    pub open spec fn well_formed(&self) -> bool {
        forall|i: int, j: int|
            0 <= i < j < self.entries().len() ==> (#[trigger] self.entries()[i]).form != (
            #[trigger] self.entries()[j]).form
    }

    /// The table as a mapping from the name of a package to its preset.
    pub open spec fn view(&self) -> Map<Seq<char>, PresetView> {
        Map::new(
            |form: Seq<char>| exists|i: int| self.holds_at(form, i),
            |form: Seq<char>| self.entries()[choose|i: int| self.holds_at(form, i)],
        )
    }

    /// In a well-formed table each entry is what its form maps to.
    proof fn lemma_entry_is_mapped(&self, i: int)
        requires
            self.well_formed(),
            0 <= i < self.entries().len(),
        ensures
            self@.dom().contains(self.entries()[i].form),
            self@[self.entries()[i].form] == self.entries()[i],
    {
        let form = self.entries()[i].form;
        assert(self.holds_at(form, i));
        let j = choose|j: int| self.holds_at(form, j);
        if i < j {
            assert(self.entries()[i].form != self.entries()[j].form);
        } else if j < i {
            assert(self.entries()[j].form != self.entries()[i].form);
        }
    }

    /// A table without presets.
    pub fn new() -> (table: PresetTable)
        ensures
            table.well_formed(),
            table@ == Map::<Seq<char>, PresetView>::empty(),
    {
        let table = PresetTable { presets: Vec::new() };
        assert(table@ =~= Map::<Seq<char>, PresetView>::empty()) by {
            assert forall|form: Seq<char>| !table@.dom().contains(form) by {
                assert forall|i: int| !table.holds_at(form, i) by {}
            }
        }
        table
    }

    /// The table of the presets that come with the library.
    pub fn builtin() -> (table: PresetTable)
        ensures
            table.well_formed(),
            table@ == Map::<Seq<char>, PresetView>::empty().insert(
                react_preset().form,
                react_preset(),
            ),
    {
        let mut table = PresetTable::new();
        table.insert(get_react_preset());
        table
    }

    /// Registers a preset under the name of its package. A preset that was
    /// registered under that name before is replaced.
    pub fn insert(&mut self, preset: Preset)
        requires
            old(self).well_formed(),
        ensures
            final(self).well_formed(),
            final(self)@ == old(self)@.insert(preset@.form, preset@),
    {
        let ghost before = *self;
        let ghost added = preset@;
        let mut i: usize = 0;
        while i < self.presets.len()
            invariant
                *self == before,
                before == *old(self),
                before.well_formed(),
                added == preset@,
                i <= self.presets.len(),
                forall|j: int| 0 <= j < i ==> !self.holds_at(added.form, j),
            decreases self.presets.len() - i,
        {
            if self.presets[i].form == preset.form {
                assert(self.holds_at(added.form, i as int));
                self.presets.set(i, preset);
                proof {
                    assert(self.entries() =~= before.entries().update(i as int, added));
                    assert(self.well_formed()) by {
                        assert forall|a: int, b: int|
                            0 <= a < b < self.entries().len() implies (
                        #[trigger] self.entries()[a]).form != (#[trigger] self.entries()[b]).form by {
                            assert(before.entries()[a].form != before.entries()[b].form);
                        }
                    }
                    assert forall|form: Seq<char>|
                        #![auto]
                        self@.dom().contains(form) == before@.insert(
                            added.form,
                            added,
                        ).dom().contains(form) by {
                        if self@.dom().contains(form) {
                            let k = choose|k: int| self.holds_at(form, k);
                            assert(before.holds_at(form, k));
                        }
                        if before@.dom().contains(form) {
                            let k = choose|k: int| before.holds_at(form, k);
                            assert(self.holds_at(form, k));
                        }
                        if form == added.form {
                            assert(self.holds_at(form, i as int));
                        }
                    }
                    assert forall|form: Seq<char>| self@.dom().contains(form) implies self@[form]
                        == before@.insert(added.form, added)[form] by {
                        let k = choose|k: int| self.holds_at(form, k);
                        self.lemma_entry_is_mapped(k);
                        if k != i {
                            assert(before.holds_at(form, k));
                            before.lemma_entry_is_mapped(k);
                        }
                    }
                    assert(self@ =~= before@.insert(added.form, added));
                }
                return ;
            }
            i = i + 1;
        }
        self.presets.push(preset);
        proof {
            let n = before.entries().len() as int;
            assert(self.entries() =~= before.entries().push(added));
            assert(self.well_formed()) by {
                assert forall|a: int, b: int|
                    0 <= a < b < self.entries().len() implies (#[trigger] self.entries()[a]).form
                    != (#[trigger] self.entries()[b]).form by {
                    if b == n {
                        assert(!before.holds_at(added.form, a));
                    } else {
                        assert(before.entries()[a].form != before.entries()[b].form);
                    }
                }
            }
            assert forall|form: Seq<char>|
                #![auto]
                self@.dom().contains(form) == before@.insert(added.form, added).dom().contains(
                    form,
                ) by {
                if self@.dom().contains(form) {
                    let k = choose|k: int| self.holds_at(form, k);
                    if k < n {
                        assert(before.holds_at(form, k));
                    }
                }
                if before@.dom().contains(form) {
                    let k = choose|k: int| before.holds_at(form, k);
                    assert(self.holds_at(form, k));
                }
                if form == added.form {
                    assert(self.holds_at(form, n));
                }
            }
            assert forall|form: Seq<char>| self@.dom().contains(form) implies self@[form]
                == before@.insert(added.form, added)[form] by {
                let k = choose|k: int| self.holds_at(form, k);
                self.lemma_entry_is_mapped(k);
                if k < n {
                    assert(before.holds_at(form, k));
                    before.lemma_entry_is_mapped(k);
                }
            }
            assert(self@ =~= before@.insert(added.form, added));
        }
    }

    /// The preset of the package `form`, or `None` where none is registered
    /// under that name.
    pub fn lookup(&self, form: &str) -> (found: Option<&Preset>)
        requires
            self.well_formed(),
        ensures
            match found {
                Some(preset) => self@.dom().contains(form@) && preset@ == self@[form@]
                    && preset@.form == form@,
                None => !self@.dom().contains(form@),
            },
    {
        let wanted = form.to_owned();
        let mut i: usize = 0;
        while i < self.presets.len()
            invariant
                self.well_formed(),
                i <= self.presets.len(),
                wanted@ == form@,
                forall|j: int| 0 <= j < i ==> !self.holds_at(form@, j),
            decreases self.presets.len() - i,
        {
            if self.presets[i].form == wanted {
                proof {
                    self.lemma_entry_is_mapped(i as int);
                }
                return Some(&self.presets[i]);
            }
            i = i + 1;
        }
        assert forall|j: int| !self.holds_at(form@, j) by {}
        None
    }
}

} // verus!
