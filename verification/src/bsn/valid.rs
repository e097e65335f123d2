//! Whether a scene can be generated at all: tests for what the code generator asks of its input.
use vstd::prelude::*;

#[allow(unused_imports)]
use crate::bsn::codegen::{entries_valid, entry_valid, items_valid, BsnTokenStream};
#[allow(unused_imports)]
use crate::bsn::patch::{enum_patchable, is_duplicate, is_raw, patchable, struct_patchable};
use crate::bsn::patch::has_duplicate;
use crate::bsn::types::{
    Bsn, BsnEntry, BsnFields, BsnListRoot, BsnRoot, BsnSceneListItem, BsnSceneListItems, BsnType,
    BsnValue,
};
#[allow(unused_imports)]
use crate::bsn::values::{type_printable, value_printable};
use crate::literals::is_printable;
use crate::tokens::Ident;

verus! {

impl BsnValue {
    /// Whether the value is an expression of its own.
    pub fn is_printable(&self) -> (r: bool)
        ensures
            r == value_printable(*self),
        decreases self,
    {
        match self {
            BsnValue::Tuple(tuple) => {
                let mut i: usize = 0;
                while i < tuple.0.len()
                    invariant
                        i <= tuple.0@.len(),
                        *self == BsnValue::Tuple(*tuple),
                        decreases_to!(*self => tuple.0@),
                        forall|k: int|
                            #![trigger tuple.0@[k]]
                            0 <= k < i ==> value_printable(tuple.0@[k]),
                    decreases tuple.0@.len() - i,
                {
                    assert(decreases_to!(tuple.0@ => tuple.0@[i as int]));
                    if !tuple.0[i].is_printable() {
                        assert(!value_printable(tuple.0@[i as int]));
                        assert(!value_printable(*self)) by {
                            assert(self->Tuple_0 == *tuple);
                            assert(self->Tuple_0.0@[i as int] == tuple.0@[i as int]);
                        }
                        return false;
                    }
                    i += 1;
                }
                true
            },
            BsnValue::Type(ty) => ty.is_printable(),
            BsnValue::Name(_) => false,
            _ => true,
        }
    }
}

impl BsnType {
    /// Whether all the values given for the type are expressions of their own.
    pub fn is_printable(&self) -> (r: bool)
        ensures
            r == type_printable(*self),
        decreases self,
    {
        match &self.fields {
            BsnFields::Named(fields) => {
                let mut i: usize = 0;
                while i < fields.len()
                    invariant
                        i <= fields@.len(),
                        self.fields == BsnFields::Named(*fields),
                        decreases_to!(*self => fields@),
                        forall|k: int|
                            #![trigger fields@[k]]
                            0 <= k < i ==> match fields@[k].value {
                                Some(value) => value_printable(value),
                                None => true,
                            },
                    decreases fields@.len() - i,
                {
                    assert(decreases_to!(fields@ => fields@[i as int]));
                    if let Some(value) = &fields[i].value {
                        if !value.is_printable() {
                            assert(fields@[i as int].value is Some);
                            return false;
                        }
                    }
                    i += 1;
                }
                true
            },
            BsnFields::Tuple(fields) => {
                let mut i: usize = 0;
                while i < fields.len()
                    invariant
                        i <= fields@.len(),
                        self.fields == BsnFields::Tuple(*fields),
                        decreases_to!(*self => fields@),
                        forall|k: int|
                            #![trigger fields@[k]]
                            0 <= k < i ==> value_printable(fields@[k].value),
                    decreases fields@.len() - i,
                {
                    assert(decreases_to!(fields@ => fields@[i as int]));
                    if !fields[i].value.is_printable() {
                        assert(!value_printable(fields@[i as int].value));
                        return false;
                    }
                    i += 1;
                }
                true
            },
        }
    }
}

/// Whether the word is a raw identifier.
fn ident_is_raw(ident: &Ident) -> (r: bool)
    ensures
        r == is_raw(ident.text@),
{
    let text = ident.text.as_str();
    text.unicode_len() >= 2 && text.get_char(0) == 'r' && text.get_char(1) == '#'
}

impl BsnType {
    /// Whether a patch can be written for the type.
    pub fn is_patchable(&self) -> (r: bool)
        ensures
            r == patchable(*self),
        decreases self, 1nat,
    {
        match &self.enum_variant {
            Some(variant) => !ident_is_raw(variant) && self.is_enum_patchable(),
            None => self.is_struct_patchable(),
        }
    }

    /// Whether a value that is a type can be written as the value of a field.
    fn is_settable(&self) -> (r: bool)
        ensures
            r == if self.enum_variant is Some {
                type_printable(*self)
            } else {
                patchable(*self)
            },
        decreases self, 2nat,
    {
        if self.enum_variant.is_some() {
            self.is_printable()
        } else {
            self.is_patchable()
        }
    }

    /// Whether the fields of a struct can be set.
    pub fn is_struct_patchable(&self) -> (r: bool)
        ensures
            r == struct_patchable(*self),
        decreases self, 0nat,
    {
        match &self.fields {
            BsnFields::Named(fields) => {
                let mut i: usize = 0;
                while i < fields.len()
                    invariant
                        i <= fields@.len(),
                        self.fields == BsnFields::Named(*fields),
                        decreases_to!(*self => fields@),
                        forall|k: int|
                            #![trigger fields@[k]]
                            0 <= k < i ==> (!is_duplicate(fields@, k) ==> match fields@[k].value {
                                Some(BsnValue::Name(_)) => true,
                                Some(BsnValue::Type(inner)) => if inner.enum_variant is Some {
                                    type_printable(inner)
                                } else {
                                    patchable(inner)
                                },
                                Some(value) => value_printable(value),
                                None => true,
                            }),
                    decreases fields@.len() - i,
                {
                    assert(decreases_to!(fields@ => fields@[i as int]));
                    if !has_duplicate(fields, i) {
                        let fine = match &fields[i].value {
                            Some(BsnValue::Name(_)) => true,
                            Some(BsnValue::Type(inner)) => inner.is_settable(),
                            Some(value) => value.is_printable(),
                            None => true,
                        };
                        if !fine {
                            assert(fields@[i as int].value is Some);
                            return false;
                        }
                    }
                    i += 1;
                }
                true
            },
            BsnFields::Tuple(fields) => {
                if fields.len() > u32::MAX as usize {
                    return false;
                }
                let mut i: usize = 0;
                while i < fields.len()
                    invariant
                        i <= fields@.len(),
                        self.fields == BsnFields::Tuple(*fields),
                        decreases_to!(*self => fields@),
                        forall|k: int|
                            #![trigger fields@[k]]
                            0 <= k < i ==> match fields@[k].value {
                                BsnValue::Name(_) => true,
                                BsnValue::Type(inner) => if inner.enum_variant is Some {
                                    type_printable(inner)
                                } else {
                                    patchable(inner)
                                },
                                value => value_printable(value),
                            },
                    decreases fields@.len() - i,
                {
                    assert(decreases_to!(fields@ => fields@[i as int]));
                    let fine = match &fields[i].value {
                        BsnValue::Name(_) => true,
                        BsnValue::Type(inner) => inner.is_settable(),
                        value => value.is_printable(),
                    };
                    if !fine {
                        return false;
                    }
                    i += 1;
                }
                true
            },
        }
    }

    /// Whether the fields of a variant can be set.
    pub fn is_enum_patchable(&self) -> (r: bool)
        ensures
            r == enum_patchable(*self),
        decreases self, 0nat,
    {
        match &self.fields {
            BsnFields::Named(fields) => {
                let mut i: usize = 0;
                while i < fields.len()
                    invariant
                        i <= fields@.len(),
                        self.fields == BsnFields::Named(*fields),
                        decreases_to!(*self => fields@),
                        forall|k: int|
                            #![trigger fields@[k]]
                            0 <= k < i ==> (!is_duplicate(fields@, k) ==> match fields@[k].value {
                                Some(BsnValue::Type(inner)) => if inner.enum_variant is Some {
                                    type_printable(inner)
                                } else {
                                    patchable(inner)
                                },
                                Some(value) => value_printable(value),
                                None => true,
                            }),
                    decreases fields@.len() - i,
                {
                    assert(decreases_to!(fields@ => fields@[i as int]));
                    if !has_duplicate(fields, i) {
                        let fine = match &fields[i].value {
                            Some(BsnValue::Type(inner)) => inner.is_settable(),
                            Some(value) => value.is_printable(),
                            None => true,
                        };
                        if !fine {
                            assert(fields@[i as int].value is Some);
                            return false;
                        }
                    }
                    i += 1;
                }
                true
            },
            BsnFields::Tuple(fields) => {
                let mut i: usize = 0;
                while i < fields.len()
                    invariant
                        i <= fields@.len(),
                        self.fields == BsnFields::Tuple(*fields),
                        decreases_to!(*self => fields@),
                        forall|k: int|
                            #![trigger fields@[k]]
                            0 <= k < i ==> match fields@[k].value {
                                BsnValue::Type(inner) => if inner.enum_variant is Some {
                                    type_printable(inner)
                                } else {
                                    patchable(inner)
                                },
                                value => value_printable(value),
                            },
                    decreases fields@.len() - i,
                {
                    assert(decreases_to!(fields@ => fields@[i as int]));
                    let fine = match &fields[i].value {
                        BsnValue::Type(inner) => inner.is_settable(),
                        value => value.is_printable(),
                    };
                    if !fine {
                        return false;
                    }
                    i += 1;
                }
                true
            },
        }
    }
}

impl BsnEntry {
    /// Whether the entry can be generated.
    pub fn is_generable(&self) -> (r: bool)
        ensures
            r == entry_valid(*self),
        decreases self,
    {
        match self {
            BsnEntry::Name(ident) => is_printable(ident.text.as_str()),
            BsnEntry::FromTemplatePatch(ty) => ty.is_patchable(),
            BsnEntry::TemplatePatch(ty) => ty.is_patchable(),
            BsnEntry::RelatedSceneList(related) => related.scene_list.0.is_generable(),
            _ => true,
        }
    }
}

impl<const ALLOW_FLAT: bool> Bsn<ALLOW_FLAT> {
    /// Whether all entries can be generated.
    pub fn is_generable(&self) -> (r: bool)
        ensures
            r == entries_valid(self.entries@),
        decreases self,
    {
        let mut i: usize = 0;
        while i < self.entries.len()
            invariant
                i <= self.entries@.len(),
                forall|k: int|
                    #![trigger self.entries@[k]]
                    0 <= k < i ==> entry_valid(self.entries@[k]),
            decreases self.entries@.len() - i,
        {
            if !self.entries[i].is_generable() {
                assert(!entry_valid(self.entries@[i as int]));
                return false;
            }
            i += 1;
        }
        true
    }
}

impl BsnSceneListItems {
    /// Whether all items can be generated.
    pub fn is_generable(&self) -> (r: bool)
        ensures
            r == items_valid(self.0@),
        decreases self,
    {
        let mut i: usize = 0;
        while i < self.0.len()
            invariant
                i <= self.0@.len(),
                forall|k: int|
                    #![trigger self.0@[k]]
                    0 <= k < i ==> match self.0@[k] {
                        BsnSceneListItem::Scene(bsn) => entries_valid(bsn.entries@),
                        BsnSceneListItem::Expression(_) => true,
                    },
            decreases self.0@.len() - i,
        {
            let fine = match &self.0[i] {
                BsnSceneListItem::Scene(bsn) => bsn.is_generable(),
                BsnSceneListItem::Expression(_) => true,
            };
            if !fine {
                return false;
            }
            i += 1;
        }
        true
    }
}

impl BsnRoot {
    /// Whether tokens can be generated.
    pub fn is_generable(&self) -> (r: bool)
        ensures
            r == self.is_valid(),
    {
        self.0.is_generable()
    }
}

impl BsnListRoot {
    /// Whether tokens can be generated.
    pub fn is_generable(&self) -> (r: bool)
        ensures
            r == self.is_valid(),
    {
        self.0.is_generable()
    }
}

} // verus!
