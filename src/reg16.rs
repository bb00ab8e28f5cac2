//! One 16-bit register: its shadow values, its editor and its fields.
use vstd::prelude::*;
use crate::bits::{extract_field, merge_field};
use crate::codec::{digits_pad, from_str_to_u16, from_u16_to_hex, parse_text, push_char, push_digits, render_text};
use crate::field;
use crate::field::{next_field_state, Field};

verus! {

/// The interaction state of a register or a field.
#[derive(Clone, Copy, Debug, PartialEq, Eq, Structural)]
pub enum ValState {
    Idle,
    Selected,
    Editing,
}

/// Identifies one editable input, so that keyboard focus can be moved to it.
#[derive(Clone, Copy, Debug, PartialEq, Eq, Structural)]
pub struct InputId(pub u64);

/// A named constant of a field.
#[derive(Clone, Debug)]
pub struct EnumValue {
    pub name: String,
    pub description: Option<String>,
    pub value: u16,
}

impl EnumValue {
    /// The value in decimal, a space, and the name.
    pub fn label(&self) -> (r: String)
        ensures
            r@ == digits_pad(self.value as nat, 1, 10).push(' ') + self.name@,
    {
        let mut out = String::new();
        push_digits(&mut out, self.value as u32, 1, 10);
        push_char(&mut out, ' ');
        out.append(self.name.as_str());
        assert(Seq::<char>::empty() + digits_pad(self.value as nat, 1, 10) == digits_pad(
            self.value as nat,
            1,
            10,
        ));
        out
    }
}

/// A 16-bit register and the fields it is made of.
pub struct Reg16 {
    pub name: String,
    pub description: Option<String>,
    /// Whether the register's fields are shown.
    pub expanded: bool,
    pub state: ValState,
    /// The value last read from hardware.
    pub value_read: u16,
    /// The value staged for writing.
    pub value_write: u16,
    pub input_text: String,
    pub fields: Vec<Field>,
    pub input_id: InputId,
}

/// A side effect for the caller to carry out after a message.
#[derive(Clone, Copy, Debug, PartialEq, Eq, Structural)]
pub enum Action {
    Nothing,
    /// Read the register from hardware.
    Read,
    /// Write the register's staged value to hardware.
    Write,
    /// Move keyboard focus to an input.
    Focus(InputId),
}

/// What the user did to a register's editor, or to one of its fields'.
#[derive(Clone, Debug)]
pub enum Message {
    Read,
    Write,
    ToggleExpand,
    Select,
    InputChanged(String),
    WriteValueSubmit,
    FieldChanged(usize, field::Message),
}

/// `f` with its write value taken from the register value `reg`.
pub open spec fn with_write(f: Field, reg: u16) -> Field {
    Field { value_write: extract_field(reg, f.offset, f.width), ..f }
}

/// `f` with its read value taken from the register value `reg`.
pub open spec fn with_read(f: Field, reg: u16) -> Field {
    Field { value_read: extract_field(reg, f.offset, f.width), ..f }
}

/// `f` with its editor closed.
pub open spec fn idle(f: Field) -> Field {
    Field { state: ValState::Idle, ..f }
}

/// The fields after the one at `index` was selected: it moves on, every
/// other one goes idle.
pub open spec fn select_field(fields: Seq<Field>, index: int) -> Seq<Field> {
    fields.map(
        |j: int, f: Field|
            if j == index {
                Field { state: next_field_state(f.state), ..f }
            } else {
                idle(f)
            },
    )
}

pub open spec fn all_geometry_ok(fields: Seq<Field>) -> bool {
    forall|i: int| 0 <= i < fields.len() ==> #[trigger] fields[i].geometry_ok()
}

fn refresh_write(fields: &mut Vec<Field>, reg: u16)
    requires
        all_geometry_ok(old(fields)@),
    ensures
        final(fields)@ == old(fields)@.map(|j: int, f: Field| with_write(f, reg)),
        all_geometry_ok(final(fields)@),
{
    let ghost start = fields@;
    let mut i: usize = 0;
    while i < fields.len()
        invariant
            fields@.len() == start.len(),
            i <= start.len(),
            all_geometry_ok(start),
            forall|j: int| 0 <= j < i ==> fields@[j] == with_write(#[trigger] start[j], reg),
            forall|j: int| i <= j < start.len() ==> fields@[j] == #[trigger] start[j],
        decreases start.len() - i,
    {
        assert(start[i as int].geometry_ok());
        fields[i].set_value_write_from_reg(reg);
        i += 1;
    }
    assert(fields@ =~= start.map(|j: int, f: Field| with_write(f, reg)));
    assert forall|j: int| 0 <= j < fields@.len() implies #[trigger] fields@[j].geometry_ok() by {
        assert(start[j].geometry_ok());
    }
}

fn refresh_read(fields: &mut Vec<Field>, reg: u16)
    requires
        all_geometry_ok(old(fields)@),
    ensures
        final(fields)@ == old(fields)@.map(|j: int, f: Field| with_read(f, reg)),
        all_geometry_ok(final(fields)@),
{
    let ghost start = fields@;
    let mut i: usize = 0;
    while i < fields.len()
        invariant
            fields@.len() == start.len(),
            i <= start.len(),
            all_geometry_ok(start),
            forall|j: int| 0 <= j < i ==> fields@[j] == with_read(#[trigger] start[j], reg),
            forall|j: int| i <= j < start.len() ==> fields@[j] == #[trigger] start[j],
        decreases start.len() - i,
    {
        assert(start[i as int].geometry_ok());
        fields[i].set_value_read_from_reg(reg);
        i += 1;
    }
    assert(fields@ =~= start.map(|j: int, f: Field| with_read(f, reg)));
    assert forall|j: int| 0 <= j < fields@.len() implies #[trigger] fields@[j].geometry_ok() by {
        assert(start[j].geometry_ok());
    }
}

fn select_in(fields: &mut Vec<Field>, index: usize, id: InputId)
    ensures
        final(fields)@ == select_field(old(fields)@, index as int),
{
    let ghost start = fields@;
    let mut i: usize = 0;
    while i < fields.len()
        invariant
            fields@.len() == start.len(),
            i <= start.len(),
            forall|j: int| 0 <= j < i ==> fields@[j] == #[trigger] select_field(start, index as int)[j],
            forall|j: int| i <= j < start.len() ==> fields@[j] == #[trigger] start[j],
        decreases start.len() - i,
    {
        if i == index {
            fields[i].update(field::Message::Select(id));
        } else {
            fields[i].state = ValState::Idle;
        }
        i += 1;
    }
    assert(fields@ =~= select_field(start, index as int));
}

impl Reg16 {
    /// Every field fits in the register and holds its part of the register's
    /// read and write values.
    pub open spec fn wf(&self) -> bool {
        forall|i: int|
            0 <= i < self.fields@.len() ==> {
                let f = #[trigger] self.fields@[i];
                &&& f.geometry_ok()
                &&& f.value_read == extract_field(self.value_read, f.offset, f.width)
                &&& f.value_write == extract_field(self.value_write, f.offset, f.width)
            }
    }

    /// A collapsed, idle register whose values, and its fields' values, are
    /// zero.
    pub fn new(name: String, description: Option<String>, fields: Vec<Field>, input_id: InputId) -> (r: Reg16)
        requires
            all_geometry_ok(fields@),
        ensures
            r.wf(),
            r.name == name,
            r.description == description,
            !r.expanded,
            r.state == ValState::Idle,
            r.value_read == 0,
            r.value_write == 0,
            r.input_text@ == render_text(0, 16),
            r.input_id == input_id,
            r.fields@ == fields@.map(|j: int, f: Field| with_read(with_write(f, 0), 0)),
    {
        let mut fields = fields;
        refresh_write(&mut fields, 0);
        refresh_read(&mut fields, 0);
        Reg16 {
            name,
            description,
            expanded: false,
            state: ValState::Idle,
            value_read: 0,
            value_write: 0,
            input_text: from_u16_to_hex(0),
            fields,
            input_id,
        }
    }

    /// Stages `value` for writing: the text shows it, and every field takes
    /// its part of it.
    pub fn set_value_write(&mut self, value: u16)
        requires
            old(self).wf(),
        ensures
            final(self).wf(),
            *final(self) == (Reg16 {
                value_write: value,
                input_text: final(self).input_text,
                fields: final(self).fields,
                ..*old(self)
            }),
            final(self).input_text@ == render_text(value, 16),
            final(self).fields@ == old(self).fields@.map(|j: int, f: Field| with_write(f, value)),
    {
        self.value_write = value;
        self.input_text = from_u16_to_hex(value);
        refresh_write(&mut self.fields, value);
    }

    /// Records `value` as read from hardware: every field takes its part of it.
    pub fn set_value_read(&mut self, value: u16)
        requires
            old(self).wf(),
        ensures
            final(self).wf(),
            *final(self) == (Reg16 { value_read: value, fields: final(self).fields, ..*old(self) }),
            final(self).fields@ == old(self).fields@.map(|j: int, f: Field| with_read(f, value)),
    {
        self.value_read = value;
        refresh_read(&mut self.fields, value);
    }

    /// `message` may be handed to `update`: a field it names exists.
    pub open spec fn accepts(&self, message: Message) -> bool {
        message matches Message::FieldChanged(index, _) ==> index < self.fields@.len()
    }

    /// The register `before` once it staged `value` for writing, with the
    /// fields following it.
    pub open spec fn staged(before: Reg16, after: Reg16, value: u16) -> bool {
        &&& after == (Reg16 {
            value_write: value,
            state: ValState::Selected,
            input_text: after.input_text,
            fields: after.fields,
            ..before
        })
        &&& after.fields@ == before.fields@.map(|j: int, f: Field| with_write(f, value))
    }

    /// `after` and `r` are the register `before` and the action once it
    /// handled `message`.
    pub open spec fn update_post(before: Reg16, after: Reg16, message: Message, r: Action) -> bool {
        match message {
            Message::ToggleExpand => after == (Reg16 {
                expanded: !before.expanded,
                ..before
            }) && r == Action::Nothing,
            Message::Select => after == (Reg16 {
                state: ValState::Selected,
                ..before
            }) && r == Action::Nothing,
            Message::InputChanged(text) => r == Action::Nothing && after.input_text
                == text && match parse_text(text@) {
                Ok(v) => Reg16::staged(before, after, v),
                Err(_) => after == (Reg16 { input_text: text, ..before }),
            },
            Message::WriteValueSubmit | Message::Write => match parse_text(
                before.input_text@,
            ) {
                Ok(v) => Reg16::staged(before, after, v) && after.input_text
                    == before.input_text && r == Action::Write,
                Err(_) => after == before && r == Action::Nothing,
            },
            Message::Read => after == before && r == Action::Read,
            Message::FieldChanged(index, field::Message::Select(_)) => {
                &&& after == (Reg16 { fields: after.fields, ..before })
                &&& after.fields@ == select_field(before.fields@, index as int)
                &&& r == Action::Nothing
            },
            Message::FieldChanged(index, field::Message::WriteValueSubmit) => {
                let f = before.fields@[index as int];
                match parse_text(f.input_text@) {
                    Ok(v) => {
                        let reg = merge_field(before.value_write, v, f.offset, f.width);
                        &&& after == (Reg16 {
                            value_write: reg,
                            input_text: after.input_text,
                            fields: after.fields,
                            ..before
                        })
                        &&& after.input_text@ == render_text(reg, 16)
                        &&& after.fields@ == before.fields@.update(
                            index as int,
                            idle(f),
                        ).map(|j: int, g: Field| with_write(g, reg))
                        &&& r == Action::Focus(before.input_id)
                    },
                    Err(_) => after == before && r == Action::Nothing,
                }
            },
            Message::FieldChanged(index, m) => {
                &&& after == (Reg16 { fields: after.fields, ..before })
                &&& after.fields@.len() == before.fields@.len()
                &&& forall|j: int|
                    0 <= j < before.fields@.len() && j != index
                        ==> #[trigger] after.fields@[j] == before.fields@[j]
                &&& Field::update_post(
                    before.fields@[index as int],
                    after.fields@[index as int],
                    m,
                )
                &&& r == Action::Nothing
            },
        }
    }

    /// Parses the register's text and, when it is a value, stages it for
    /// writing and asks for the write.
    fn submit(&mut self) -> (r: Action)
        requires
            old(self).wf(),
        ensures
            final(self).wf(),
            match parse_text(old(self).input_text@) {
                Ok(v) => Reg16::staged(*old(self), *final(self), v) && final(self).input_text
                    == old(self).input_text && r == Action::Write,
                Err(_) => *final(self) == *old(self) && r == Action::Nothing,
            },
    {
        match from_str_to_u16(self.input_text.as_str()) {
            Ok(value) => {
                self.value_write = value;
                self.state = ValState::Selected;
                refresh_write(&mut self.fields, value);
                Action::Write
            },
            Err(_) => Action::Nothing,
        }
    }

    /// Handles a message addressed to this register or to one of its fields,
    /// and returns the side effect it asks for.
    pub fn update(&mut self, message: Message) -> (r: Action)
        requires
            old(self).wf(),
            old(self).accepts(message),
        ensures
            final(self).wf(),
            Reg16::update_post(*old(self), *final(self), message, r),
    {
        match message {
            Message::ToggleExpand => {
                self.expanded = !self.expanded;
                Action::Nothing
            },
            Message::Select => {
                self.state = ValState::Selected;
                Action::Nothing
            },
            Message::InputChanged(text) => {
                let parsed = from_str_to_u16(text.as_str());
                self.input_text = text;
                if let Ok(value) = parsed {
                    self.value_write = value;
                    self.state = ValState::Selected;
                    refresh_write(&mut self.fields, value);
                }
                Action::Nothing
            },
            Message::WriteValueSubmit => self.submit(),
            Message::Write => self.submit(),
            Message::Read => Action::Read,
            Message::FieldChanged(index, m) => match m {
                field::Message::Select(id) => {
                    select_in(&mut self.fields, index, id);
                    Action::Nothing
                },
                field::Message::WriteValueSubmit => {
                    match from_str_to_u16(self.fields[index].input_text.as_str()) {
                        Ok(value) => {
                            let reg = self.fields[index].value_reg_from_field(
                                self.value_write,
                                value,
                            );
                            self.value_write = reg;
                            self.input_text = from_u16_to_hex(reg);
                            self.fields[index].state = ValState::Idle;
                            refresh_write(&mut self.fields, reg);
                            Action::Focus(self.input_id)
                        },
                        Err(_) => Action::Nothing,
                    }
                },
                other => {
                    self.fields[index].update(other);
                    Action::Nothing
                },
            },
        }
    }
}

} // verus!
