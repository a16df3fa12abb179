//! Delivery policy: the quality-of-service items that go out with every
//! message.

use vstd::prelude::*;
use crate::error::Error;

verus! {

/// The kinds of delivery directive.
#[derive(Debug, PartialEq, Eq, Clone, Copy, Structural)]
pub enum SQoSType {
    Reveal,
    Challenge,
    Threshold,
    Priority,
    ExceptionRollback,
    SelectionDelay,
    Anonymous,
    Identity,
    Isolation,
    CrossVerify,
}

/// One delivery directive, with the parameter that its kind may take.
#[derive(Debug, PartialEq, Eq)]
pub struct SQoSItem {
    pub qos_type: SQoSType,
    pub param: Option<Vec<u8>>,
}

/// What an [`SQoSItem`] stands for.
pub struct SQoSItemView {
    pub qos_type: SQoSType,
    pub param: Option<Seq<u8>>,
}

impl View for SQoSItem {
    type V = SQoSItemView;

    open spec fn view(&self) -> SQoSItemView {
        SQoSItemView {
            qos_type: self.qos_type,
            param: match self.param {
                Some(bytes) => Some(bytes@),
                None => None,
            },
        }
    }
}

impl SQoSItem {
    /// A directive of kind `qos_type`.
    pub fn new(qos_type: SQoSType, param: Option<Vec<u8>>) -> (item: SQoSItem)
        ensures
            item.qos_type == qos_type,
            item.param == param,
    {
        SQoSItem { qos_type, param }
    }
}

impl Clone for SQoSItem {
    fn clone(&self) -> (copy: SQoSItem)
        ensures
            copy@ == self@,
    {
        SQoSItem {
            qos_type: self.qos_type,
            param: match &self.param {
                Some(bytes) => Some(bytes.clone()),
                None => None,
            },
        }
    }
}

/// What a list of directives stands for.
pub open spec fn items_view(items: Seq<SQoSItem>) -> Seq<SQoSItemView> {
    items.map_values(|item: SQoSItem| item@)
}

/// Whether `items` holds a directive of kind `qos_type`.
pub open spec fn has_type(items: Seq<SQoSItemView>, qos_type: SQoSType) -> bool {
    exists|at: int| 0 <= at < items.len() && (#[trigger] items[at]).qos_type == qos_type
}

/// Whether `items[at]` is the first directive of kind `qos_type`.
pub open spec fn first_of_type(items: Seq<SQoSItemView>, qos_type: SQoSType, at: int) -> bool {
    &&& 0 <= at < items.len()
    &&& items[at].qos_type == qos_type
    &&& forall|before: int| 0 <= before < at ==> (#[trigger] items[before]).qos_type != qos_type
}

/// Whether no two directives of `items` are of the same kind.
pub open spec fn types_unique(items: Seq<SQoSItemView>) -> bool {
    forall|i: int, j: int|
        0 <= i < j < items.len() ==> (#[trigger] items[i]).qos_type != (
        #[trigger] items[j]).qos_type
}

/// `items` with `item` added behind them, unless its kind is taken.
pub open spec fn inserted(items: Seq<SQoSItemView>, item: SQoSItemView) -> Result<
    Seq<SQoSItemView>,
    Error,
> {
    if has_type(items, item.qos_type) {
        Err(Error::DuplicateQoSType)
    } else {
        Ok(items.push(item))
    }
}

/// `items` without the first directive of kind `qos_type`; `items` itself
/// where there is none.
pub open spec fn removed(items: Seq<SQoSItemView>, qos_type: SQoSType) -> Seq<SQoSItemView> {
    if exists|at: int| first_of_type(items, qos_type, at) {
        items.remove(choose|at: int| first_of_type(items, qos_type, at))
    } else {
        items
    }
}

/// `replacement` in place of `items`, unless two of its directives are of the
/// same kind.
pub open spec fn replaced(items: Seq<SQoSItemView>, replacement: Seq<SQoSItemView>) -> Result<
    Seq<SQoSItemView>,
    Error,
> {
    if types_unique(replacement) {
        Ok(replacement)
    } else {
        Err(Error::DuplicateQoSType)
    }
}

/// Whether no two directives of `items` are of the same kind.
pub fn check_types_unique(items: &Vec<SQoSItem>) -> (unique: bool)
    ensures
        unique == types_unique(items_view(items@)),
{
    let ghost view = items_view(items@);
    let mut i: usize = 0;
    while i < items.len()
        invariant
            i <= items@.len(),
            view == items_view(items@),
            forall|a: int, b: int|
                0 <= a < b < view.len() && a < i ==> (#[trigger] view[a]).qos_type != (
                #[trigger] view[b]).qos_type,
        decreases items@.len() - i,
    {
        let mut j: usize = i + 1;
        while j < items.len()
            invariant
                i < j <= items@.len(),
                view == items_view(items@),
                forall|b: int|
                    i < b < j ==> view[i as int].qos_type != (#[trigger] view[b]).qos_type,
            decreases items@.len() - j,
        {
            if items[i].qos_type == items[j].qos_type {
                assert(view[i as int].qos_type == view[j as int].qos_type);
                return false;
            }
            j += 1;
        }
        i += 1;
    }
    true
}

/// The directives in force, in the order in which they were added.
pub struct SQoS {
    items: Vec<SQoSItem>,
}

impl View for SQoS {
    type V = Seq<SQoSItemView>;

    closed spec fn view(&self) -> Seq<SQoSItemView> {
        items_view(self.items@)
    }
}

impl SQoS {
    /// Whether the directives are of different kinds. A new policy is so, and
    /// no operation makes it otherwise.
    pub open spec fn wf(&self) -> bool {
        types_unique(self@)
    }

    /// No directive.
    pub fn new() -> (sqos: SQoS)
        ensures
            sqos@ == Seq::<SQoSItemView>::empty(),
            sqos.wf(),
    {
        let sqos = SQoS { items: Vec::new() };
        assert(sqos@ =~= Seq::<SQoSItemView>::empty());
        sqos
    }

    /// Adds `item` behind the others; refused where its kind is taken.
    pub fn insert(&mut self, item: SQoSItem) -> (done: Result<(), Error>)
        ensures
            match inserted(old(self)@, item@) {
                Ok(items) => done == Ok::<(), Error>(()) && final(self)@ == items,
                Err(error) => done == Err::<(), Error>(error) && final(self)@ == old(self)@,
            },
            old(self).wf() ==> final(self).wf(),
    {
        let mut i: usize = 0;
        while i < self.items.len()
            invariant
                i <= self.items@.len(),
                forall|before: int|
                    0 <= before < i ==> (#[trigger] self@[before]).qos_type != item.qos_type,
            decreases self.items@.len() - i,
        {
            if self.items[i].qos_type == item.qos_type {
                assert(self@[i as int].qos_type == item@.qos_type);
                return Err(Error::DuplicateQoSType);
            }
            i += 1;
        }
        let ghost added = item@;
        self.items.push(item);
        assert(self@ =~= old(self)@.push(added));
        Ok(())
    }

    /// Takes out the directive of kind `qos_type`, if there is one.
    pub fn remove(&mut self, qos_type: SQoSType)
        ensures
            final(self)@ == removed(old(self)@, qos_type),
            old(self).wf() ==> final(self).wf(),
    {
        let mut i: usize = 0;
        while i < self.items.len()
            invariant
                i <= self.items@.len(),
                self.items == old(self).items,
                forall|before: int|
                    0 <= before < i ==> (#[trigger] self@[before]).qos_type != qos_type,
            decreases self.items@.len() - i,
        {
            if self.items[i].qos_type == qos_type {
                assert(first_of_type(old(self)@, qos_type, i as int));
                self.items.remove(i);
                assert(self@ =~= old(self)@.remove(i as int));
                return ;
            }
            i += 1;
        }
    }

    /// Takes out every directive.
    pub fn clear(&mut self)
        ensures
            final(self)@ == Seq::<SQoSItemView>::empty(),
            final(self).wf(),
    {
        self.items = Vec::new();
        assert(self@ =~= Seq::<SQoSItemView>::empty());
    }

    /// Puts `items` in place of the directives in force; refused, with nothing
    /// changed, where two of `items` are of the same kind.
    pub fn set(&mut self, items: Vec<SQoSItem>) -> (done: Result<(), Error>)
        ensures
            match replaced(old(self)@, items_view(items@)) {
                Ok(replacement) => done == Ok::<(), Error>(()) && final(self)@ == replacement,
                Err(error) => done == Err::<(), Error>(error) && final(self)@ == old(self)@,
            },
            old(self).wf() ==> final(self).wf(),
    {
        if !check_types_unique(&items) {
            return Err(Error::DuplicateQoSType);
        }
        self.items = items;
        Ok(())
    }

    /// A copy of the directives in force, in their order.
    pub fn get(&self) -> (items: Vec<SQoSItem>)
        ensures
            items_view(items@) == self@,
    {
        let mut items: Vec<SQoSItem> = Vec::new();
        let mut i: usize = 0;
        while i < self.items.len()
            invariant
                i <= self.items@.len(),
                items@.len() == i,
                forall|j: int| 0 <= j < i ==> items@[j]@ == self.items@[j]@,
            decreases self.items@.len() - i,
        {
            items.push(self.items[i].clone());
            i += 1;
        }
        assert(items_view(items@) =~= self@);
        items
    }
}

} // verus!
