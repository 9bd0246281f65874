//! What can stand on the left of a call: functions, classes, natives.

use vstd::prelude::*;
use vstd::string::StringExecFns;
use crate::instance::{Instance, InstanceView};
use crate::text::same_text;
use crate::statement::{
    duplicate_block, duplicate_names, name_views, statement_views, Statement, StatementView,
};

verus! {

/// The instance that a method was fetched from, and the superclass of the
/// class that defines the method, where it has one.
#[derive(Debug, PartialEq)]
pub struct Receiver {
    pub this: Instance,
    pub superclass: Option<Callable>,
}

pub struct ReceiverView {
    pub this: InstanceView,
    pub superclass: Option<CallableView>,
}

#[derive(Debug, PartialEq)]
pub enum Callable {
    /// Name, parameter names, body, handle of the captured environment
    /// (`None`: the environment it is called in), initializer flag, and the
    /// receiver where the function was fetched as a method.
    Function(String, Vec<String>, Vec<Box<Statement>>, Option<usize>, bool, Option<Box<Receiver>>),
    /// Name, superclass, and the methods in the order they were declared;
    /// a method is found by the name it carries.
    Class(String, Option<Box<Callable>>, Vec<Box<Callable>>),
    Clock,
}

/// The mathematical value that a [`Callable`] stands for.
pub enum CallableView {
    Function(Seq<char>, Seq<Seq<char>>, Seq<StatementView>, Option<nat>, bool, Option<Box<ReceiverView>>),
    Class(Seq<char>, Option<Box<CallableView>>, Seq<CallableView>),
    Clock,
}

/// The views of a method table, in order.
pub open spec fn method_views(items: Seq<Box<Callable>>) -> Seq<CallableView> {
    Seq::new(items.len(), |i: int| items[i]@)
}

/// The first method called `name` in a method table, from index `from` on.
pub open spec fn lookup_method(
    methods: Seq<CallableView>,
    name: Seq<char>,
    from: int,
) -> Option<CallableView>
    decreases methods.len() - from,
{
    if from < 0 || from >= methods.len() {
        None
    } else if methods[from].name() == name {
        Some(methods[from])
    } else {
        lookup_method(methods, name, from + 1)
    }
}

/// A method together with the superclass of the class that defines it.
pub struct FoundMethod {
    pub method: CallableView,
    pub superclass: Option<CallableView>,
}

impl CallableView {
    /// The number of arguments that a call must bring. For a class that is
    /// the number of parameters of the `init` in its own method table.
    pub open spec fn arity(self) -> nat {
        match self {
            CallableView::Function(_, params, _, _, _, _) => params.len(),
            CallableView::Class(_, _, methods) => match lookup_method(methods, "init"@, 0) {
                Some(CallableView::Function(_, params, _, _, _, _)) => params.len(),
                _ => 0,
            },
            CallableView::Clock => 0,
        }
    }

    pub open spec fn name(self) -> Seq<char> {
        match self {
            CallableView::Function(name, _, _, _, _, _) => name,
            CallableView::Class(name, _, _) => name,
            CallableView::Clock => "clock"@,
        }
    }

    pub open spec fn is_native(self) -> bool {
        self is Clock
    }

    pub open spec fn is_initializer(self) -> bool {
        match self {
            CallableView::Function(_, _, _, _, flag, _) => flag,
            CallableView::Class(_, _, _) => false,
            CallableView::Clock => true,
        }
    }

    /// Method lookup: the class's own table first, then the superclass
    /// chain. `None` on anything that is not a class.
    pub open spec fn resolve(self, name: Seq<char>) -> Option<FoundMethod>
        decreases self,
    {
        match self {
            CallableView::Class(_, parent, methods) => match lookup_method(methods, name, 0) {
                Some(m) => Some(
                    FoundMethod {
                        method: m,
                        superclass: match parent {
                            Some(p) => Some(*p),
                            None => None,
                        },
                    },
                ),
                None => match parent {
                    Some(p) => p.resolve(name),
                    None => None,
                },
            },
            _ => None,
        }
    }

    /// What `find_method` answers.
    pub open spec fn find_method(self, name: Seq<char>) -> Result<CallableView, Seq<char>> {
        match self {
            CallableView::Class(_, _, _) => match self.resolve(name) {
                Some(found) => Ok(found.method),
                None => Err("Undefined property "@ + name + "."@),
            },
            _ => Err("Cannot find method on non-class "@ + self.name() + "."@),
        }
    }
}

impl Clone for Receiver {
    fn clone(&self) -> (copy: Receiver)
        ensures
            copy@ == self@,
    {
        self.duplicate()
    }
}

impl Receiver {
    pub open spec fn view(&self) -> ReceiverView
        decreases self,
    {
        ReceiverView {
            this: self.this@,
            superclass: match self.superclass {
                Some(c) => Some(c@),
                None => None,
            },
        }
    }

    pub fn duplicate(&self) -> (copy: Receiver)
        ensures
            copy@ == self@,
        decreases self,
    {
        Receiver {
            this: self.this.duplicate(),
            superclass: match &self.superclass {
                Some(c) => Some(c.duplicate()),
                None => None,
            },
        }
    }
}

impl Clone for Callable {
    fn clone(&self) -> (copy: Callable)
        ensures
            copy@ == self@,
    {
        self.duplicate()
    }
}

impl Callable {
    pub open spec fn view(&self) -> CallableView
        decreases self,
    {
        match self {
            Callable::Function(name, params, body, closure, flag, receiver) => CallableView::Function(
                name@,
                name_views(params@),
                Seq::new(
                    body.len() as nat,
                    |i: int|
                        if 0 <= i < body.len() {
                            body[i]@
                        } else {
                            StatementView::Block(Seq::empty())
                        },
                ),
                match closure {
                    Some(h) => Some(*h as nat),
                    None => None,
                },
                *flag,
                match receiver {
                    Some(r) => Some(Box::new(r@)),
                    None => None,
                },
            ),
            Callable::Class(name, parent, methods) => CallableView::Class(
                name@,
                match parent {
                    Some(p) => Some(Box::new(p@)),
                    None => None,
                },
                Seq::new(
                    methods.len() as nat,
                    |i: int|
                        if 0 <= i < methods.len() {
                            methods[i]@
                        } else {
                            CallableView::Clock
                        },
                ),
            ),
            Callable::Clock => CallableView::Clock,
        }
    }

    /// A copy that stands for the same value.
    pub fn duplicate(&self) -> (copy: Callable)
        ensures
            copy@ == self@,
        decreases self,
    {
        match self {
            Callable::Function(name, params, body, closure, flag, receiver) => {
                let copy = Callable::Function(
                    name.clone(),
                    duplicate_names(params),
                    duplicate_block(body),
                    *closure,
                    *flag,
                    match receiver {
                        Some(r) => Some(Box::new(r.duplicate())),
                        None => None,
                    },
                );
                assert(copy@->Function_2 =~= statement_views(body@));
                assert(self@->Function_2 =~= statement_views(body@));
                copy
            },
            Callable::Class(name, parent, methods) => {
                let mut copies: Vec<Box<Callable>> = Vec::new();
                let mut i: usize = 0;
                while i < methods.len()
                    invariant
                        i <= methods.len(),
                        self is Class,
                        self->Class_2 == *methods,
                        copies.len() == i,
                        forall|j: int| 0 <= j < i ==> copies[j]@ == methods[j]@,
                    decreases methods.len() - i,
                {
                    copies.push(Box::new(methods[i].duplicate()));
                    i += 1;
                }
                let copy = Callable::Class(
                    name.clone(),
                    match parent {
                        Some(p) => Some(Box::new(p.duplicate())),
                        None => None,
                    },
                    copies,
                );
                assert(copy@->Class_2 =~= self@->Class_2);
                copy
            },
            Callable::Clock => Callable::Clock,
        }
    }

    /// The natives that every interpreter starts with, by name.
    pub fn native_fn_list() -> (natives: Vec<(String, Callable)>)
        ensures
            natives@.len() == 1,
            natives@[0].0@ == "clock"@,
            natives@[0].1@ == CallableView::Clock,
    {
        let mut natives: Vec<(String, Callable)> = Vec::new();
        natives.push((String::from_str("clock"), Callable::Clock));
        natives
    }

    pub fn arity(&self) -> (n: usize)
        ensures
            n == self@.arity(),
    {
        match self {
            Callable::Function(_, params, _, _, _, _) => {
                params.len()
            },
            Callable::Class(_, _, methods) => {
                assert(self@->Class_2 =~= method_views(methods@));
                match find_in_table(methods, "init") {
                    Some(i) => match &*methods[i] {
                        Callable::Function(_, params, _, _, _, _) => {
                            params.len()
                        },
                        _ => 0,
                    },
                    None => 0,
                }
            },
            Callable::Clock => 0,
        }
    }

    pub fn get_name(&self) -> (name: &str)
        ensures
            name@ == self@.name(),
    {
        match self {
            Callable::Function(name, _, _, _, _, _) => name.as_str(),
            Callable::Class(name, _, _) => name.as_str(),
            Callable::Clock => "clock",
        }
    }

    pub fn is_native(&self) -> (r: bool)
        ensures
            r == self@.is_native(),
    {
        match self {
            Callable::Function(_, _, _, _, _, _) => false,
            Callable::Class(_, _, _) => false,
            Callable::Clock => true,
        }
    }

    pub fn is_initializer(&self) -> (r: bool)
        ensures
            r == self@.is_initializer(),
    {
        match self {
            Callable::Function(_, _, _, _, flag, _) => *flag,
            Callable::Class(_, _, _) => false,
            Callable::Clock => true,
        }
    }

    /// Looks a method up in this class and then in its superclasses, and
    /// reports with it the superclass of the class that defines it.
    pub fn resolve(&self, name: &str) -> (found: Option<(Callable, Option<Callable>)>)
        ensures
            match found {
                Some((method, parent)) => self@.resolve(name@) == Some(
                    FoundMethod {
                        method: method@,
                        superclass: match parent {
                            Some(p) => Some(p@),
                            None => None,
                        },
                    },
                ),
                None => self@.resolve(name@) is None,
            },
        decreases self,
    {
        match self {
            Callable::Class(_, parent, methods) => {
                assert(self@->Class_2 =~= method_views(methods@));
                match find_in_table(methods, name) {
                    Some(i) => {
                        let up = match parent {
                            Some(p) => Some(p.duplicate()),
                            None => None,
                        };
                        Some((methods[i].duplicate(), up))
                    },
                    None => match parent {
                        Some(p) => p.resolve(name),
                        None => None,
                    },
                }
            },
            _ => None,
        }
    }

    /// Looks a method up in this class and then in its superclasses.
    pub fn find_method(&self, name: &str) -> (found: Result<Callable, String>)
        ensures
            match found {
                Ok(method) => self@.find_method(name@) == Ok::<CallableView, Seq<char>>(method@),
                Err(message) => self@.find_method(name@) == Err::<CallableView, Seq<char>>(message@),
            },
    {
        match self {
            Callable::Class(_, _, _) => {
                match self.resolve(name) {
                    Some((method, _)) => Ok(method),
                    None => {
                        let mut message = String::from_str("Undefined property ");
                        message.append(name);
                        message.append(".");
                        Err(message)
                    },
                }
            },
            _ => {
                let mut message = String::from_str("Cannot find method on non-class ");
                message.append(self.get_name());
                message.append(".");
                Err(message)
            },
        }
    }
}

/// The index of the first entry of a method table that is called `name`.
pub fn find_in_table(methods: &Vec<Box<Callable>>, name: &str) -> (found: Option<usize>)
    ensures
        match found {
            Some(i) => i < methods.len() && lookup_method(method_views(methods@), name@, 0) == Some(
                methods[i as int]@,
            ),
            None => lookup_method(method_views(methods@), name@, 0) is None,
        },
{
    let mut i: usize = 0;
    while i < methods.len()
        invariant
            i <= methods.len(),
            lookup_method(method_views(methods@), name@, 0) == lookup_method(
                method_views(methods@),
                name@,
                i as int,
            ),
        decreases methods.len() - i,
    {
        if same_text(methods[i].get_name(), name) {
            return Some(i);
        }
        i += 1;
    }
    None
}

} // verus!
