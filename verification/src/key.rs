//! The idempotency key: what names one change to the remote service.
use crate::schema::EventKind;
use crate::text::{append_decimal, decimal, lemma_decimal_is_injective, push_char};
use vstd::prelude::*;

verus! {

/// Names one change to the remote service, so that a request that arrives
/// twice counts once. It is made of the job's id and event kind and of
/// nothing else: neither the attempt nor the time enters it.
#[derive(Clone, Copy, Debug, PartialEq, Eq, Structural)]
pub struct IdempotencyKey {
    pub id: i32,
    pub kind: EventKind,
}

impl IdempotencyKey {
    /// The key as it travels: the tag of the kind, a colon, the id in decimal.
    pub open spec fn text(self) -> Seq<char> {
        self.kind.spec_tag() + seq![':'] + decimal(self.id as int)
    }

    /// The key as it travels.
    pub fn to_text(&self) -> (text: String)
        ensures
            text@ == self.text(),
    {
        let mut text = String::from_str(self.kind.tag());
        push_char(&mut text, ':');
        append_decimal(&mut text, self.id as i64);
        assert(text@ =~= self.text());
        text
    }
}

/// Two keys that travel as one text are one key: no two changes share a key.
pub proof fn law_key_text_is_injective(a: IdempotencyKey, b: IdempotencyKey)
    requires
        a.text() == b.text(),
    ensures
        a == b,
{
    reveal_strlit("create");
    reveal_strlit("update");
    reveal_strlit("delete");
    reveal_strlit("unknown");
    let ta = a.kind.spec_tag();
    let tb = b.kind.spec_tag();
    let da = decimal(a.id as int);
    let db = decimal(b.id as int);
    assert(a.text()[0] == ta[0]);
    assert(b.text()[0] == tb[0]);
    assert(a.text()[1] == ta[1]);
    assert(b.text()[1] == tb[1]);
    assert(a.kind == b.kind);
    assert(a.text().skip(ta.len() as int + 1) =~= da);
    assert(b.text().skip(tb.len() as int + 1) =~= db);
    lemma_decimal_is_injective(a.id as int, b.id as int);
}

} // verus!
