//! Untyped structured data, as one queue record carries it.
use vstd::prelude::*;

verus! {

/// A payload tree as a mathematical value.
pub enum Tree {
    Null,
    Bool(bool),
    Integer(int),
    Decimal(Seq<char>),
    Text(Seq<char>),
    List(Seq<Tree>),
    Record(Seq<Member>),
}

/// One named member of a record, as a mathematical value.
pub struct Member {
    pub name: Seq<char>,
    pub value: Tree,
}

/// The value of the first member called `name`, if there is one.
pub open spec fn first_named(members: Seq<Member>, name: Seq<char>) -> Option<Tree>
    decreases members.len(),
{
    if members.len() == 0 {
        None
    } else if members[0].name == name {
        Some(members[0].value)
    } else {
        first_named(members.drop_first(), name)
    }
}

impl Tree {
    /// The member called `name` of a record. A tree that is no record has
    /// no members; of two members with one name the first counts.
    pub open spec fn get(self, name: Seq<char>) -> Option<Tree> {
        match self {
            Tree::Record(members) => first_named(members, name),
            _ => None,
        }
    }
}

/// A member at position `at` whose name no earlier member has is the first of that name.
pub proof fn lemma_first_named_at(members: Seq<Member>, name: Seq<char>, at: int)
    requires
        0 <= at < members.len(),
        members[at].name == name,
        forall|j: int| 0 <= j < at ==> members[j].name != name,
    ensures
        first_named(members, name) == Some(members[at].value),
    decreases at,
{
    if at > 0 {
        let rest = members.drop_first();
        assert(rest[at - 1] == members[at]);
        assert forall|j: int| 0 <= j < at - 1 implies rest[j].name != name by {
            assert(rest[j] == members[j + 1]);
        }
        lemma_first_named_at(rest, name, at - 1);
    }
}

/// Where no member has the name, none is found.
pub proof fn lemma_first_named_absent(members: Seq<Member>, name: Seq<char>)
    requires
        forall|j: int| 0 <= j < members.len() ==> members[j].name != name,
    ensures
        first_named(members, name) is None,
    decreases members.len(),
{
    if members.len() > 0 {
        let rest = members.drop_first();
        assert forall|j: int| 0 <= j < rest.len() implies rest[j].name != name by {
            assert(rest[j] == members[j + 1]);
        }
        lemma_first_named_absent(rest, name);
    }
}

/// One node of a record's payload.
///
/// A number that is an integer within the range of `i64` is an `Integer`;
/// every other number is a `Decimal` and keeps its literal text. A
/// `Decimal` whose text is no number literal counts as `null` wherever the
/// tree is written out.
#[derive(Debug, PartialEq)]
pub enum RawValue {
    Null,
    Bool(bool),
    Integer(i64),
    Decimal(String),
    Text(String),
    List(Vec<RawValue>),
    Record(Vec<RawMember>),
}

/// One named member of a record.
#[derive(Debug, PartialEq)]
pub struct RawMember {
    pub name: String,
    pub value: RawValue,
}

impl View for RawValue {
    type V = Tree;

    open spec fn view(&self) -> Tree
        decreases self,
    {
        match self {
            RawValue::Null => Tree::Null,
            RawValue::Bool(b) => Tree::Bool(*b),
            RawValue::Integer(n) => Tree::Integer(*n as int),
            RawValue::Decimal(s) => Tree::Decimal(s@),
            RawValue::Text(s) => Tree::Text(s@),
            RawValue::List(items) => Tree::List(
                Seq::new(
                    items@.len(),
                    |i: int|
                        if 0 <= i < items@.len() {
                            items@[i].view()
                        } else {
                            Tree::Null
                        },
                ),
            ),
            RawValue::Record(members) => Tree::Record(
                Seq::new(
                    members@.len(),
                    |i: int|
                        if 0 <= i < members@.len() {
                            Member { name: members@[i].name@, value: members@[i].value.view() }
                        } else {
                            Member { name: Seq::empty(), value: Tree::Null }
                        },
                ),
            ),
        }
    }
}

impl RawValue {
    /// The view of a list holds the views of its items, in order.
    pub proof fn lemma_list_view(items: Vec<RawValue>)
        ensures
            RawValue::List(items).view() is List,
            RawValue::List(items).view()->List_0.len() == items@.len(),
            forall|j: int|
                0 <= j < items@.len() ==> #[trigger] RawValue::List(items).view()->List_0[j]
                    == items@[j].view(),
    {
    }

    /// The view of a record holds its members by name and view, in order.
    pub proof fn lemma_record_view(members: Vec<RawMember>)
        ensures
            RawValue::Record(members).view() is Record,
            RawValue::Record(members).view()->Record_0.len() == members@.len(),
            forall|j: int|
                0 <= j < members@.len() ==> #[trigger] RawValue::Record(members).view()->Record_0[j]
                    == (Member { name: members@[j].name@, value: members@[j].value.view() }),
    {
    }

    /// The member called `name`, if this is a record that has one.
    pub fn member<'a>(&'a self, name: &str) -> (found: Option<&'a RawValue>)
        ensures
            found matches Some(value) ==> self.view().get(name@) == Some(value.view()),
            found is None ==> self.view().get(name@) is None,
    {
        match self {
            RawValue::Record(members) => {
                let key = String::from_str(name);
                let mut i: usize = 0;
                while i < members.len()
                    invariant
                        i <= members.len(),
                        key@ == name@,
                        forall|j: int| 0 <= j < i ==> members@[j].name@ != name@,
                        self == RawValue::Record(*members),
                    decreases members.len() - i,
                {
                    if members[i].name == key {
                        proof {
                            Self::lemma_record_view(*members);
                            lemma_first_named_at(self.view()->Record_0, name@, i as int);
                        }
                        return Some(&members[i].value);
                    }
                    i += 1;
                }
                proof {
                    Self::lemma_record_view(*members);
                    lemma_first_named_absent(self.view()->Record_0, name@);
                }
                None
            },
            _ => None,
        }
    }

    /// A copy of the tree, node for node.
    pub fn duplicate(&self) -> (out: RawValue)
        ensures
            out.view() == self.view(),
        decreases self,
    {
        match self {
            RawValue::Null => RawValue::Null,
            RawValue::Bool(b) => RawValue::Bool(*b),
            RawValue::Integer(n) => RawValue::Integer(*n),
            RawValue::Decimal(s) => RawValue::Decimal(s.clone()),
            RawValue::Text(s) => RawValue::Text(s.clone()),
            RawValue::List(items) => {
                let mut out: Vec<RawValue> = Vec::new();
                let mut i: usize = 0;
                while i < items.len()
                    invariant
                        i <= items.len(),
                        out@.len() == i,
                        forall|j: int| 0 <= j < i ==> (#[trigger] out@[j]).view() == items@[j].view(),
                        self == RawValue::List(*items),
                    decreases items.len() - i,
                {
                    proof {
                        vstd::std_specs::vec::axiom_vec_index_decreases(*items, i as int);
                        assert(decreases_to!(self => self->List_0));
                        assert(decreases_to!(self => items[i as int]));
                    }
                    let item = items[i].duplicate();
                    out.push(item);
                    i += 1;
                }
                proof {
                    Self::lemma_list_view(*items);
                    Self::lemma_list_view(out);
                }
                let copy = RawValue::List(out);
                assert(copy.view()->List_0 =~= self.view()->List_0);
                copy
            },
            RawValue::Record(members) => {
                let mut out: Vec<RawMember> = Vec::new();
                let mut i: usize = 0;
                while i < members.len()
                    invariant
                        i <= members.len(),
                        out@.len() == i,
                        forall|j: int|
                            0 <= j < i ==> (#[trigger] out@[j]).name@ == members@[j].name@
                                && out@[j].value.view() == members@[j].value.view(),
                        self == RawValue::Record(*members),
                    decreases members.len() - i,
                {
                    proof {
                        vstd::std_specs::vec::axiom_vec_index_decreases(*members, i as int);
                        assert(decreases_to!(self => self->Record_0));
                        assert(decreases_to!(members[i as int] => members[i as int].value));
                        assert(decreases_to!(self => members[i as int].value));
                    }
                    let name = members[i].name.clone();
                    let value = members[i].value.duplicate();
                    out.push(RawMember { name, value });
                    i += 1;
                }
                proof {
                    Self::lemma_record_view(*members);
                    Self::lemma_record_view(out);
                }
                let copy = RawValue::Record(out);
                assert(copy.view()->Record_0 =~= self.view()->Record_0);
                copy
            },
        }
    }
}

impl Clone for RawValue {
    fn clone(&self) -> (out: RawValue)
        ensures
            out.view() == self.view(),
    {
        self.duplicate()
    }
}

impl Clone for RawMember {
    fn clone(&self) -> (out: RawMember)
        ensures
            out.name@ == self.name@,
            out.value.view() == self.value.view(),
    {
        RawMember { name: self.name.clone(), value: self.value.duplicate() }
    }
}

} // verus!
