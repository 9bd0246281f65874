//! Instances: a class and a handle to a shared, mutable map of fields.

use vstd::prelude::*;
use vstd::string::StringExecFns;
use crate::callable::{Callable, CallableView};
use crate::node::{Literal, LiteralView};
use crate::scope::Scope;

verus! {

/// An object of a class. Copies of an instance share the field map that
/// `fields` names in the [`ObjectHeap`]; two instances are the same object
/// where their handles are equal.
#[derive(Debug, PartialEq)]
pub struct Instance {
    class: Box<Callable>,
    fields: usize,
}

pub struct InstanceView {
    pub class: Box<CallableView>,
    pub fields: nat,
}

/// The field maps of all instances made so far, by handle.
pub struct ObjectHeap {
    slots: Vec<Scope>,
}

/// The property that a name has on an instance: the field where there is
/// one, else the method that the class chain gives.
pub open spec fn property_of(
    heap: Seq<Map<Seq<char>, LiteralView>>,
    instance: InstanceView,
    name: Seq<char>,
) -> Result<LiteralView, Seq<char>> {
    if instance.fields < heap.len() && heap[instance.fields as int].contains_key(name) {
        Ok(heap[instance.fields as int][name])
    } else {
        match instance.class.find_method(name) {
            Ok(m) => Ok(LiteralView::CallLit(m)),
            Err(_) => Err("Undefined property "@ + name + "."@),
        }
    }
}

/// The heap after a field was written. A handle that the heap does not hold
/// leaves it unchanged.
pub open spec fn heap_with_field(
    heap: Seq<Map<Seq<char>, LiteralView>>,
    instance: InstanceView,
    name: Seq<char>,
    value: LiteralView,
) -> Seq<Map<Seq<char>, LiteralView>> {
    if instance.fields < heap.len() {
        heap.update(instance.fields as int, heap[instance.fields as int].insert(name, value))
    } else {
        heap
    }
}

impl ObjectHeap {
    pub closed spec fn view(&self) -> Seq<Map<Seq<char>, LiteralView>> {
        Seq::new(self.slots.len() as nat, |i: int| self.slots[i]@)
    }

    pub fn new() -> (heap: ObjectHeap)
        ensures
            heap@ == Seq::<Map<Seq<char>, LiteralView>>::empty(),
    {
        let heap = ObjectHeap { slots: Vec::new() };
        heap
    }

    /// The number of instances made so far.
    pub fn len(&self) -> (n: usize)
        ensures
            n == self@.len(),
    {
        self.slots.len()
    }
}

impl Clone for Instance {
    fn clone(&self) -> (copy: Instance)
        ensures
            copy@ == self@,
    {
        self.duplicate()
    }
}

impl Instance {
    pub closed spec fn view(&self) -> InstanceView
        decreases self,
    {
        InstanceView { class: Box::new(self.class@), fields: self.fields as nat }
    }

    pub fn duplicate(&self) -> (copy: Instance)
        ensures
            copy@ == self@,
        decreases self,
    {
        Instance { class: Box::new(self.class.duplicate()), fields: self.fields }
    }

    /// Makes a new object of `class`, with no fields yet.
    pub fn new(class: Callable, heap: &mut ObjectHeap) -> (instance: Instance)
        ensures
            instance@ == (InstanceView { class: Box::new(class@), fields: old(heap)@.len() }),
            final(heap)@ == old(heap)@.push(Map::empty()),
    {
        let fields = heap.slots.len();
        heap.slots.push(Scope::new());
        Instance { class: Box::new(class), fields }
    }

    pub fn get_class(&self) -> (class: &Callable)
        ensures
            class@ == *self@.class,
    {
        &*self.class
    }

    /// Whether two values are the same object.
    pub fn same_object(&self, other: &Instance) -> (r: bool)
        ensures
            r == (self@.fields == other@.fields),
    {
        self.fields == other.fields
    }

    /// A copy of the field `name`, where the instance has it.
    pub fn field(&self, heap: &ObjectHeap, name: &str) -> (value: Option<Literal>)
        ensures
            match value {
                Some(v) => self@.fields < heap@.len() && heap@[self@.fields as int].contains_key(
                    name@,
                ) && heap@[self@.fields as int][name@] == v@,
                None => !(self@.fields < heap@.len() && heap@[self@.fields as int].contains_key(
                    name@,
                )),
            },
    {
        if self.fields < heap.slots.len() {
            heap.slots[self.fields].get(name)
        } else {
            None
        }
    }

    pub fn get(&self, heap: &ObjectHeap, name: &str) -> (value: Result<Literal, String>)
        ensures
            match value {
                Ok(v) => property_of(heap@, self@, name@) == Ok::<LiteralView, Seq<char>>(v@),
                Err(message) => property_of(heap@, self@, name@) == Err::<LiteralView, Seq<char>>(
                    message@,
                ),
            },
    {
        if self.fields < heap.slots.len() {
            match heap.slots[self.fields].get(name) {
                Some(v) => {
                    return Ok(v);
                },
                None => {},
            }
        }
        match self.class.find_method(name) {
            Ok(m) => Ok(Literal::CallLit(m)),
            Err(_) => {
                let mut message = String::from_str("Undefined property ");
                message.append(name);
                message.append(".");
                Err(message)
            },
        }
    }

    pub fn set(&self, heap: &mut ObjectHeap, name: &str, value: Literal)
        ensures
            final(heap)@ == heap_with_field(old(heap)@, self@, name@, value@),
    {
        if self.fields < heap.slots.len() {
            heap.slots[self.fields].set(name, value);
        }
    }
}

} // verus!
