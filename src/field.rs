//! One bit-field of a register: its geometry, its shadow values and the
//! state of its editor.
use vstd::prelude::*;
use crate::bits::{extract, extract_field, low_mask, merge, merge_field, valid_geometry};
use crate::codec::{digits_pad, push_digits, render_text, render_value};
use crate::reg16::{EnumValue, InputId, ValState};

verus! {

/// A field whose offset and width do not fit in a 16-bit register.
#[derive(Clone, Copy, Debug, PartialEq, Eq, Structural)]
pub struct GeometryError {
    pub offset: u8,
    pub width: u8,
}

/// A bit-field of a register: `width` bits starting at bit `offset`.
pub struct Field {
    pub name: String,
    /// The field's part of the register's value read from hardware.
    pub value_read: u16,
    /// The field's part of the register's value staged for writing.
    pub value_write: u16,
    pub input_text: String,
    pub description: Option<String>,
    pub state: ValState,
    pub offset: u8,
    pub width: u8,
    pub enum_values: Vec<EnumValue>,
    pub selected_enum: Option<EnumValue>,
    pub input_id: InputId,
}

/// What the user did to a field's editor.
#[derive(Clone, Debug)]
pub enum Message {
    Select(InputId),
    InputChanged(String),
    WriteValueSubmit,
    ValSelected(EnumValue),
}

/// The state a field moves to when it is selected in state `s`.
pub open spec fn next_field_state(s: ValState) -> ValState {
    match s {
        ValState::Idle => ValState::Selected,
        ValState::Selected => ValState::Editing,
        ValState::Editing => ValState::Editing,
    }
}

/// `i` is the first position of `values` that holds `value`.
pub open spec fn is_first_match(values: Seq<EnumValue>, value: u16, i: int) -> bool {
    &&& 0 <= i < values.len()
    &&& values[i].value == value
    &&& forall|j: int| 0 <= j < i ==> #[trigger] values[j].value != value
}

impl Field {
    /// `after` is the field `before` once it handled `message`.
    pub open spec fn update_post(before: Field, after: Field, message: Message) -> bool {
        match message {
            Message::Select(_) => after == (Field { state: next_field_state(before.state), ..before }),
            Message::InputChanged(text) => after == (Field { input_text: text, ..before }),
            Message::ValSelected(val) => {
                &&& after == (Field {
                    input_text: after.input_text,
                    selected_enum: Some(val),
                    ..before
                })
                &&& after.input_text@ == digits_pad(val.value as nat, 1, 10)
            },
            Message::WriteValueSubmit => after == before,
        }
    }

    /// The field fits in a 16-bit register.
    pub open spec fn geometry_ok(&self) -> bool {
        valid_geometry(self.offset, self.width)
    }

    /// The field fits, and its shadow values fit in its width.
    pub open spec fn wf(&self) -> bool {
        &&& self.geometry_ok()
        &&& self.value_read <= low_mask(self.width)
        &&& self.value_write <= low_mask(self.width)
    }

    /// A field at rest: both shadow values zero, no editor open. Fails when
    /// `offset` and `width` do not describe bits of a 16-bit register.
    pub fn new(
        name: String,
        description: Option<String>,
        offset: u8,
        width: u8,
        enum_values: Vec<EnumValue>,
        input_id: InputId,
    ) -> (r: Result<Field, GeometryError>)
        ensures
            r is Ok <==> valid_geometry(offset, width),
            r is Err ==> r == Err::<Field, GeometryError>(GeometryError { offset, width }),
            r matches Ok(f) ==> {
                &&& f.wf()
                &&& f.name == name
                &&& f.description == description
                &&& f.offset == offset
                &&& f.width == width
                &&& f.enum_values == enum_values
                &&& f.input_id == input_id
                &&& f.value_read == 0
                &&& f.value_write == 0
                &&& f.input_text@ == render_text(0, 16)
                &&& f.state == ValState::Idle
                &&& f.selected_enum is None
            },
    {
        if width == 0 || width > 16 || offset > 16 - width {
            return Err(GeometryError { offset, width });
        }
        Ok(
            Field {
                name,
                value_read: 0,
                value_write: 0,
                input_text: render_value(0, 16),
                description,
                state: ValState::Idle,
                offset,
                width,
                enum_values,
                selected_enum: None,
                input_id,
            },
        )
    }

    /// The field's value within the register value `reg`.
    pub fn value_from_reg(&self, reg: u16) -> (r: u16)
        requires
            self.geometry_ok(),
        ensures
            r == extract_field(reg, self.offset, self.width),
            r <= low_mask(self.width),
    {
        extract(reg, self.offset, self.width)
    }

    /// The register value `reg` with this field's bits set to `field`.
    pub fn value_reg_from_field(&self, reg: u16, field: u16) -> (r: u16)
        requires
            self.geometry_ok(),
        ensures
            r == merge_field(reg, field, self.offset, self.width),
    {
        merge(reg, field, self.offset, self.width)
    }

    pub fn set_value_read_from_reg(&mut self, reg: u16)
        requires
            old(self).geometry_ok(),
        ensures
            *final(self) == (Field {
                value_read: extract_field(reg, old(self).offset, old(self).width),
                ..*old(self)
            }),
            final(self).value_read <= low_mask(final(self).width),
    {
        self.value_read = self.value_from_reg(reg);
    }

    pub fn set_value_write_from_reg(&mut self, reg: u16)
        requires
            old(self).geometry_ok(),
        ensures
            *final(self) == (Field {
                value_write: extract_field(reg, old(self).offset, old(self).width),
                ..*old(self)
            }),
            final(self).value_write <= low_mask(final(self).width),
    {
        self.value_write = self.value_from_reg(reg);
    }

    /// Handles a message addressed to this field alone. Submitting is the
    /// register's business and changes nothing here.
    pub fn update(&mut self, message: Message)
        ensures
            Field::update_post(*old(self), *final(self), message),
    {
        match message {
            Message::Select(_) => {
                self.state = match self.state {
                    ValState::Idle => ValState::Selected,
                    ValState::Selected => ValState::Editing,
                    ValState::Editing => ValState::Editing,
                };
            },
            Message::InputChanged(text) => {
                self.input_text = text;
            },
            Message::ValSelected(val) => {
                let mut text = String::new();
                push_digits(&mut text, val.value as u32, 1, 10);
                assert(text@ == Seq::<char>::empty() + digits_pad(val.value as nat, 1, 10));
                self.input_text = text;
                self.selected_enum = Some(val);
            },
            Message::WriteValueSubmit => {},
        }
    }

    /// The name of the first enumerated value equal to `value`, if any.
    pub fn resolve_enum_name(&self, value: u16) -> (r: Option<String>)
        ensures
            r is None <==> forall|i: int|
                0 <= i < self.enum_values@.len() ==> #[trigger] self.enum_values@[i].value != value,
            r matches Some(name) ==> exists|i: int|
                is_first_match(self.enum_values@, value, i) && name@
                    == #[trigger] self.enum_values@[i].name@,
    {
        let mut i: usize = 0;
        while i < self.enum_values.len()
            invariant
                i <= self.enum_values@.len(),
                forall|j: int| 0 <= j < i ==> #[trigger] self.enum_values@[j].value != value,
            decreases self.enum_values@.len() - i,
        {
            if self.enum_values[i].value == value {
                let name = self.enum_values[i].name.clone();
                assert(is_first_match(self.enum_values@, value, i as int) && name@
                    == self.enum_values@[i as int].name@);
                return Some(name);
            }
            i += 1;
        }
        None
    }

    /// The text shown for the value read from hardware.
    pub fn read_text(&self) -> (r: String)
        requires
            self.geometry_ok(),
        ensures
            r@ == render_text(self.value_read, self.width),
    {
        render_value(self.value_read, self.width)
    }

    /// The text shown for the value staged for writing.
    pub fn write_text(&self) -> (r: String)
        requires
            self.geometry_ok(),
        ensures
            r@ == render_text(self.value_write, self.width),
    {
        render_value(self.value_write, self.width)
    }
}

} // verus!
