//! The whole register map, and the rule that at most one node of it is
//! selected at a time.
use vstd::prelude::*;
use crate::field;
use crate::field::Field;
use crate::reg16::{idle, select_field, with_read, Action, Message, Reg16, ValState};

verus! {

/// All registers of the map, in the order they are shown.
pub struct RegTree {
    pub regs: Vec<Reg16>,
}

/// `r` with its own editor and all its fields' editors closed.
pub open spec fn idle_reg(r: Reg16) -> Reg16 {
    Reg16 {
        state: ValState::Idle,
        fields: r.fields,
        ..r
    }
}

/// The fields `fields` with every editor closed.
pub open spec fn idle_fields(fields: Seq<Field>) -> Seq<Field> {
    fields.map(|k: int, f: Field| idle(f))
}

/// The only node that is not idle is the register `index` when `field` is
/// `None`, or its field `field` otherwise; and that node is not idle.
pub open spec fn only_active(regs: Seq<Reg16>, index: int, field: Option<int>) -> bool {
    &&& forall|j: int|
        0 <= j < regs.len() ==> ((#[trigger] regs[j].state != ValState::Idle) <==> (j == index
            && field is None))
    &&& forall|j: int, k: int|
        0 <= j < regs.len() && 0 <= k < regs[j].fields@.len() ==> ((
        #[trigger] regs[j].fields@[k].state != ValState::Idle) <==> (j == index && field
            == Some(k)))
}

/// The field of a selection message, if it selects a field.
pub open spec fn selected_field(message: Message) -> Option<int> {
    match message {
        Message::FieldChanged(k, field::Message::Select(_)) => Some(k as int),
        _ => None,
    }
}

/// `message` selects a register or one of its fields.
pub open spec fn is_selection(message: Message) -> bool {
    message is Select || message matches Message::FieldChanged(_, field::Message::Select(_))
}

fn idle_all(fields: &mut Vec<Field>)
    ensures
        final(fields)@ == idle_fields(old(fields)@),
{
    let ghost start = fields@;
    let mut i: usize = 0;
    while i < fields.len()
        invariant
            fields@.len() == start.len(),
            i <= start.len(),
            forall|j: int| 0 <= j < i ==> fields@[j] == idle(#[trigger] start[j]),
            forall|j: int| i <= j < start.len() ==> fields@[j] == #[trigger] start[j],
        decreases start.len() - i,
    {
        fields[i].state = ValState::Idle;
        i += 1;
    }
    assert(fields@ =~= idle_fields(start));
}

impl RegTree {
    /// Every register holds its fields' values consistently.
    pub open spec fn wf(&self) -> bool {
        forall|j: int| 0 <= j < self.regs@.len() ==> (#[trigger] self.regs@[j]).wf()
    }

    /// `message` may be handed to `update` for register `index`.
    pub open spec fn accepts(&self, index: usize, message: Message) -> bool {
        index < self.regs@.len() && self.regs@[index as int].accepts(message)
    }

    pub fn new(regs: Vec<Reg16>) -> (r: RegTree)
        requires
            forall|j: int| 0 <= j < regs@.len() ==> (#[trigger] regs@[j]).wf(),
        ensures
            r.wf(),
            r.regs == regs,
    {
        RegTree { regs }
    }

    /// Closes the editors of every register but `keep`, and of their fields.
    fn idle_others(&mut self, keep: usize)
        requires
            old(self).wf(),
        ensures
            final(self).wf(),
            final(self).regs@.len() == old(self).regs@.len(),
            forall|j: int|
                0 <= j < old(self).regs@.len() ==> #[trigger] final(self).regs@[j] == if j
                    == keep {
                    old(self).regs@[j]
                } else {
                    Reg16 { fields: final(self).regs@[j].fields, ..idle_reg(old(self).regs@[j]) }
                },
            forall|j: int|
                0 <= j < old(self).regs@.len() && j != keep ==> #[trigger] final(
                    self).regs@[j].fields@ == idle_fields(old(self).regs@[j].fields@),
    {
        let ghost start = self.regs@;
        let mut i: usize = 0;
        while i < self.regs.len()
            invariant
                self.regs@.len() == start.len(),
                i <= start.len(),
                forall|j: int| 0 <= j < start.len() ==> (#[trigger] start[j]).wf(),
                forall|j: int|
                    0 <= j < i && j != keep ==> {
                        &&& #[trigger] self.regs@[j] == (Reg16 {
                            fields: self.regs@[j].fields,
                            ..idle_reg(start[j])
                        })
                        &&& self.regs@[j].fields@ == idle_fields(start[j].fields@)
                    },
                forall|j: int| (i <= j < start.len() || j == keep) && 0 <= j < start.len() ==> #[trigger] self.regs@[j] == start[j],
            decreases start.len() - i,
        {
            if i != keep {
                self.regs[i].state = ValState::Idle;
                idle_all(&mut self.regs[i].fields);
            }
            i += 1;
        }
        assert forall|j: int| 0 <= j < self.regs@.len() implies (#[trigger] self.regs@[j]).wf() by {
            assert(start[j].wf());
            if j != keep {
                assert forall|k: int| 0 <= k < self.regs@[j].fields@.len() implies
                    #[trigger] self.regs@[j].fields@[k] == idle(start[j].fields@[k]) by {}
            }
        }
    }

    /// Handles `message` for register `index`. A selection first closes the
    /// editor of every other node of the tree, so that afterwards the selected
    /// node is the only one that is not idle; any other message goes to the
    /// register alone.
    pub fn update(&mut self, index: usize, message: Message) -> (r: Action)
        requires
            old(self).wf(),
            old(self).accepts(index, message),
        ensures
            final(self).wf(),
            final(self).regs@.len() == old(self).regs@.len(),
            is_selection(message) ==> forall|j: int|
                0 <= j < old(self).regs@.len() && j != index ==> {
                    &&& #[trigger] final(self).regs@[j] == (Reg16 {
                        fields: final(self).regs@[j].fields,
                        ..idle_reg(old(self).regs@[j])
                    })
                    &&& final(self).regs@[j].fields@ == idle_fields(old(self).regs@[j].fields@)
                },
            is_selection(message) ==> only_active(final(self).regs@, index as int, selected_field(message)),
            match message {
                Message::Select => {
                    let before = old(self).regs@[index as int];
                    let after = final(self).regs@[index as int];
                    &&& after == (Reg16 { state: ValState::Selected, fields: after.fields, ..before })
                    &&& after.fields@ == idle_fields(before.fields@)
                    &&& r == Action::Focus(before.input_id)
                },
                Message::FieldChanged(k, field::Message::Select(id)) => {
                    let before = old(self).regs@[index as int];
                    let after = final(self).regs@[index as int];
                    &&& after == (Reg16 { fields: after.fields, ..idle_reg(before) })
                    &&& after.fields@ == select_field(before.fields@, k as int)
                    &&& r == Action::Focus(id)
                },
                _ => {
                    &&& forall|j: int|
                        0 <= j < old(self).regs@.len() && j != index
                            ==> #[trigger] final(self).regs@[j] == old(self).regs@[j]
                    &&& Reg16::update_post(
                        old(self).regs@[index as int],
                        final(self).regs@[index as int],
                        message,
                        r,
                    )
                },
            },
    {
        match message {
            Message::Select => {
                self.idle_others(index);
                let ghost before = self.regs@[index as int];
                idle_all(&mut self.regs[index].fields);
                self.regs[index].state = ValState::Selected;
                proof {
                    let after = self.regs@[index as int];
                    assert forall|k: int| 0 <= k < after.fields@.len() implies
                        #[trigger] after.fields@[k] == idle(before.fields@[k]) by {}
                    assert(before.wf());
                }
                Action::Focus(self.regs[index].input_id)
            },
            Message::FieldChanged(k, field::Message::Select(id)) => {
                self.idle_others(index);
                self.regs[index].state = ValState::Idle;
                assert(self.regs@[index as int].wf());
                self.regs[index].update(Message::FieldChanged(k, field::Message::Select(id)));
                proof {
                    let after = self.regs@[index as int];
                    assert forall|m: int| 0 <= m < after.fields@.len() && m != k implies
                        #[trigger] after.fields@[m].state == ValState::Idle by {
                        assert(after.fields@[m] == idle(old(self).regs@[index as int].fields@[m]));
                    }
                }
                Action::Focus(id)
            },
            other => self.regs[index].update(other),
        }
    }

    /// Records `value` as read from hardware for register `index`.
    pub fn set_value_read(&mut self, index: usize, value: u16)
        requires
            old(self).wf(),
            index < old(self).regs@.len(),
        ensures
            final(self).wf(),
            final(self).regs@.len() == old(self).regs@.len(),
            forall|j: int|
                0 <= j < old(self).regs@.len() && j != index
                    ==> #[trigger] final(self).regs@[j] == old(self).regs@[j],
            ({
                let before = old(self).regs@[index as int];
                let after = final(self).regs@[index as int];
                &&& after == (Reg16 { value_read: value, fields: after.fields, ..before })
                &&& after.fields@ == before.fields@.map(|k: int, f: Field| with_read(f, value))
            }),
    {
        self.regs[index].set_value_read(value);
    }
}

} // verus!
