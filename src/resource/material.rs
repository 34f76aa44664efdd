use vstd::prelude::*;

use crate::error::Error;

verus! {

/// Identity of a material template: its slot in the [`MaterialRegistry`].
#[derive(Debug, Clone, Copy, PartialEq, Eq, Structural, Hash)]
pub struct MaterialTemplateId(pub usize);

/// The material templates this renderer knows how to build.
#[derive(Debug, Clone, Copy, PartialEq, Eq, Structural)]
pub enum MaterialKind {
    /// Lit, single-colour geometry drawn in the forward subpass.
    Simple,
}

/// The name under which a material kind is requested.
pub open spec fn kind_name(kind: MaterialKind) -> Seq<char> {
    match kind {
        MaterialKind::Simple => seq!['s', 'i', 'm', 'p', 'l', 'e'],
    }
}

/// The kind of material requested by `name`, if any.
pub open spec fn kind_of_name(name: Seq<char>) -> Option<MaterialKind> {
    if name == kind_name(MaterialKind::Simple) {
        Some(MaterialKind::Simple)
    } else {
        None
    }
}

/// What a registry lookup by name found.
#[derive(Debug, Clone, Copy, PartialEq, Eq, Structural)]
pub enum Lookup {
    /// The template is registered under this identity.
    Found(MaterialTemplateId),
    /// Nothing is registered under the name yet; a template of this kind must
    /// be built and added.
    Load(MaterialKind),
}

/// Maps a requested name to the material kind it denotes.
pub fn material_kind(name: &str) -> (r: Option<MaterialKind>)
    ensures
        r == kind_of_name(name@),
{
    let requested = name.to_owned();
    let simple = "simple".to_owned();
    proof {
        reveal_strlit("simple");
        assert(simple@ =~= kind_name(MaterialKind::Simple));
    }
    if requested == simple {
        Some(MaterialKind::Simple)
    } else {
        assert(requested@ != kind_name(MaterialKind::Simple));
        None
    }
}

/// Name-indexed store of material templates. A template's identity is the
/// position at which it was added; adding under a name that is already taken
/// rebinds the name to the new template.
pub struct MaterialRegistry<T> {
    entries: Vec<(String, T)>,
}

/// The identity a name is bound to: the last slot added under it.
pub open spec fn last_slot_named(names: Seq<Seq<char>>, name: Seq<char>) -> Option<nat>
    decreases names.len(),
{
    if names.len() == 0 {
        None
    } else if names.last() == name {
        Some((names.len() - 1) as nat)
    } else {
        last_slot_named(names.drop_last(), name)
    }
}

impl<T> MaterialRegistry<T> {
    /// The name each slot was added under, in slot order.
    pub closed spec fn names(&self) -> Seq<Seq<char>> {
        Seq::new(self.entries@.len(), |i: int| self.entries@[i].0@)
    }

    /// The templates, in slot order.
    pub closed spec fn templates(&self) -> Seq<T> {
        Seq::new(self.entries@.len(), |i: int| self.entries@[i].1)
    }

    /// The identity `name` is bound to, if any.
    pub open spec fn spec_id_of(&self, name: Seq<char>) -> Option<MaterialTemplateId> {
        match last_slot_named(self.names(), name) {
            Some(i) => Some(MaterialTemplateId(i as usize)),
            None => None,
        }
    }

    pub fn new() -> (r: Self)
        ensures
            r.names() == Seq::<Seq<char>>::empty(),
            r.templates() == Seq::<T>::empty(),
    {
        let r = MaterialRegistry { entries: Vec::new() };
        assert(r.names() =~= Seq::<Seq<char>>::empty());
        assert(r.templates() =~= Seq::<T>::empty());
        r
    }

    pub fn len(&self) -> (r: usize)
        ensures
            r == self.templates().len(),
            r == self.names().len(),
    {
        self.entries.len()
    }

    /// Registers `template` under `name` and returns its new identity.
    pub fn add(&mut self, name: &str, template: T) -> (r: MaterialTemplateId)
        ensures
            r.0 == old(self).templates().len(),
            final(self).names() == old(self).names().push(name@),
            final(self).templates() == old(self).templates().push(template),
    {
        let id = MaterialTemplateId(self.entries.len());
        self.entries.push((name.to_owned(), template));
        assert(self.names() =~= old(self).names().push(name@));
        assert(self.templates() =~= old(self).templates().push(template));
        id
    }

    /// The identity `name` is bound to, if any.
    pub fn get_id(&self, name: &str) -> (r: Option<MaterialTemplateId>)
        ensures
            r == self.spec_id_of(name@),
    {
        let key = name.to_owned();
        let mut i: usize = self.entries.len();
        assert(self.names().subrange(0, i as int) =~= self.names());
        while i > 0
            invariant
                i <= self.entries@.len(),
                key@ == name@,
                last_slot_named(self.names(), name@) == last_slot_named(
                    self.names().subrange(0, i as int),
                    name@,
                ),
            decreases i,
        {
            let sub = Ghost(self.names().subrange(0, i as int));
            assert(sub@.drop_last() =~= self.names().subrange(0, i - 1));
            if self.entries[i - 1].0 == key {
                return Some(MaterialTemplateId(i - 1));
            }
            i = i - 1;
        }
        assert(self.names().subrange(0, 0) =~= Seq::<Seq<char>>::empty());
        None
    }

    /// Resolves `name`: the registered template, or the kind that has to be
    /// built for it.
    pub fn lookup(&self, name: &str) -> (r: Result<Lookup, Error>)
        ensures
            self.spec_id_of(name@) matches Some(id) ==> r == Ok::<Lookup, Error>(Lookup::Found(id)),
            self.spec_id_of(name@) is None ==> match kind_of_name(name@) {
                Some(kind) => r == Ok::<Lookup, Error>(Lookup::Load(kind)),
                None => r == Err::<Lookup, Error>(Error::UnknownMaterial),
            },
    {
        match self.get_id(name) {
            Some(id) => Ok(Lookup::Found(id)),
            None => match material_kind(name) {
                Some(kind) => Ok(Lookup::Load(kind)),
                None => Err(Error::UnknownMaterial),
            },
        }
    }

    pub fn get(&self, id: MaterialTemplateId) -> (r: &T)
        requires
            id.0 < self.templates().len(),
        ensures
            *r == self.templates()[id.0 as int],
    {
        &self.entries[id.0].1
    }

    /// Mutable access to one template, e.g. to rebuild its pipeline for a
    /// new viewport.
    pub fn get_mut(&mut self, id: MaterialTemplateId) -> (r: &mut T)
        requires
            id.0 < old(self).templates().len(),
        ensures
            *r == old(self).templates()[id.0 as int],
            final(self).names() == old(self).names(),
            final(self).templates() == old(self).templates().update(id.0 as int, *final(r)),
    {
        let entry = &mut self.entries[id.0];
        &mut entry.1
    }
}

} // verus!
