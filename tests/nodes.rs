use reg_tree::field::{self, Field, GeometryError};
use reg_tree::reg16::{self, Action, EnumValue, InputId, Reg16, ValState};
use reg_tree::tree::RegTree;

fn ev(name: &str, value: u16) -> EnumValue {
    EnumValue { name: name.to_string(), description: None, value }
}

fn mk_field(name: &str, offset: u8, width: u8, id: u64) -> Field {
    Field::new(name.to_string(), None, offset, width, vec![], InputId(id)).unwrap()
}

/// A register with fields at bits 0..4, 4..8 and 8..16.
fn mk_reg(id: u64) -> Reg16 {
    let fields = vec![
        mk_field("LOW", 0, 4, id + 1),
        mk_field("MID", 4, 4, id + 2),
        mk_field("HIGH", 8, 8, id + 3),
    ];
    Reg16::new("CTRL".to_string(), None, fields, InputId(id))
}

fn active_nodes(tree: &RegTree) -> Vec<(usize, Option<usize>)> {
    let mut out = vec![];
    for (j, r) in tree.regs.iter().enumerate() {
        if r.state != ValState::Idle {
            out.push((j, None));
        }
        for (k, f) in r.fields.iter().enumerate() {
            if f.state != ValState::Idle {
                out.push((j, Some(k)));
            }
        }
    }
    out
}

#[test]
fn field_new_checks_geometry() {
    let f = mk_field("F", 12, 4, 1);
    assert_eq!(f.value_read, 0);
    assert_eq!(f.value_write, 0);
    assert_eq!(f.state, ValState::Idle);
    assert_eq!(f.input_text, "0x0000");
    let bad = Field::new("F".to_string(), None, 12, 8, vec![], InputId(1));
    assert_eq!(bad.err(), Some(GeometryError { offset: 12, width: 8 }));
    let zero = Field::new("F".to_string(), None, 0, 0, vec![], InputId(1));
    assert_eq!(zero.err(), Some(GeometryError { offset: 0, width: 0 }));
    let wide = Field::new("F".to_string(), None, 0, 17, vec![], InputId(1));
    assert_eq!(wide.err(), Some(GeometryError { offset: 0, width: 17 }));
    assert!(Field::new("F".to_string(), None, 0, 16, vec![], InputId(1)).is_ok());
}

#[test]
fn field_derives_from_register() {
    let mut f = mk_field("F", 4, 4, 1);
    assert_eq!(f.value_from_reg(0x00F0), 0xF);
    assert_eq!(f.value_reg_from_field(0x00F0, 0x5), 0x0050);
    f.set_value_write_from_reg(0x1234);
    assert_eq!(f.value_write, 0x3);
    f.set_value_read_from_reg(0xFFA5);
    assert_eq!(f.value_read, 0xA);
    assert_eq!(f.read_text(), "0xA");
    assert_eq!(f.write_text(), "0x3");
}

#[test]
fn one_bit_field_shows_decimal() {
    let mut f = mk_field("EN", 15, 1, 1);
    f.set_value_read_from_reg(0x8000);
    assert_eq!(f.read_text(), "1");
    assert_eq!(f.write_text(), "0");
}

#[test]
fn field_selection_advances() {
    let mut f = mk_field("F", 0, 4, 7);
    f.update(field::Message::Select(InputId(7)));
    assert_eq!(f.state, ValState::Selected);
    f.update(field::Message::Select(InputId(7)));
    assert_eq!(f.state, ValState::Editing);
    f.update(field::Message::Select(InputId(7)));
    assert_eq!(f.state, ValState::Editing);
}

#[test]
fn field_text_and_enum_choice() {
    let mut f = mk_field("F", 0, 4, 7);
    f.update(field::Message::InputChanged("0x3".to_string()));
    assert_eq!(f.input_text, "0x3");
    f.update(field::Message::ValSelected(ev("FAST", 12)));
    assert_eq!(f.input_text, "12");
    assert_eq!(f.selected_enum.as_ref().map(|e| e.name.clone()), Some("FAST".to_string()));
    f.update(field::Message::WriteValueSubmit);
    assert_eq!(f.input_text, "12");
    assert_eq!(f.value_write, 0);
}

#[test]
fn enum_name_first_match_wins() {
    let mut f = mk_field("F", 0, 4, 1);
    f.enum_values = vec![ev("A", 1), ev("B", 1)];
    assert_eq!(f.resolve_enum_name(1), Some("A".to_string()));
    assert_eq!(f.resolve_enum_name(2), None);
}

#[test]
fn enum_value_label() {
    assert_eq!(ev("FAST", 12).label(), "12 FAST");
    assert_eq!(ev("OFF", 0).label(), "0 OFF");
}

#[test]
fn register_starts_at_rest() {
    let r = mk_reg(10);
    assert_eq!(r.value_read, 0);
    assert_eq!(r.value_write, 0);
    assert_eq!(r.input_text, "0x0000");
    assert_eq!(r.state, ValState::Idle);
    assert!(!r.expanded);
    assert_eq!(r.fields.len(), 3);
}

#[test]
fn register_value_reaches_fields() {
    let mut r = mk_reg(10);
    r.set_value_write(0xA5C3);
    assert_eq!(r.input_text, "0xA5C3");
    assert_eq!(r.fields[0].value_write, 0x3);
    assert_eq!(r.fields[1].value_write, 0xC);
    assert_eq!(r.fields[2].value_write, 0xA5);
    r.set_value_read(0x1234);
    assert_eq!(r.value_read, 0x1234);
    assert_eq!(r.fields[0].value_read, 0x4);
    assert_eq!(r.fields[1].value_read, 0x3);
    assert_eq!(r.fields[2].value_read, 0x12);
    assert_eq!(r.value_write, 0xA5C3);
}

#[test]
fn field_write_reaches_register() {
    let mut r = mk_reg(10);
    r.set_value_write(0x00F0);
    assert_eq!(r.fields[1].value_from_reg(0x00F0), 0xF);
    assert_eq!(r.fields[1].value_write, 0xF);
    r.fields[1].state = ValState::Editing;
    r.update(reg16::Message::FieldChanged(1, field::Message::InputChanged("0x5".to_string())));
    let action = r.update(reg16::Message::FieldChanged(1, field::Message::WriteValueSubmit));
    assert_eq!(action, Action::Focus(InputId(10)));
    assert_eq!(r.value_write, 0x0050);
    assert_eq!(r.input_text, "0x0050");
    assert_eq!(r.fields[1].value_write, 0x5);
    assert_eq!(r.fields[1].state, ValState::Idle);
    assert_eq!(r.fields[0].value_write, 0x0);
    assert_eq!(r.fields[2].value_write, 0x00);
}

#[test]
fn field_write_keeps_other_bits() {
    let mut r = mk_reg(10);
    r.set_value_write(0xABCD);
    r.update(reg16::Message::FieldChanged(1, field::Message::InputChanged("5".to_string())));
    r.update(reg16::Message::FieldChanged(1, field::Message::WriteValueSubmit));
    assert_eq!(r.value_write, 0xAB5D);
    assert_eq!(r.fields[0].value_write, 0xD);
    assert_eq!(r.fields[2].value_write, 0xAB);
}

#[test]
fn invalid_register_text_rejected() {
    let mut r = mk_reg(10);
    r.set_value_write(0x1234);
    r.input_text = "0xZZ".to_string();
    let action = r.update(reg16::Message::WriteValueSubmit);
    assert_eq!(action, Action::Nothing);
    assert_eq!(r.value_write, 0x1234);
    assert_eq!(r.input_text, "0xZZ");
    let action = r.update(reg16::Message::Write);
    assert_eq!(action, Action::Nothing);
    assert_eq!(r.value_write, 0x1234);
}

#[test]
fn invalid_field_text_rejected() {
    let mut r = mk_reg(10);
    r.set_value_write(0x1234);
    r.update(reg16::Message::FieldChanged(0, field::Message::InputChanged("0xZZ".to_string())));
    let action = r.update(reg16::Message::FieldChanged(0, field::Message::WriteValueSubmit));
    assert_eq!(action, Action::Nothing);
    assert_eq!(r.value_write, 0x1234);
    assert_eq!(r.input_text, "0x1234");
    assert_eq!(r.fields[0].input_text, "0xZZ");
    assert_eq!(r.fields[0].value_write, 0x4);
}

#[test]
fn register_text_input_and_submit() {
    let mut r = mk_reg(10);
    let action = r.update(reg16::Message::InputChanged("0x12".to_string()));
    assert_eq!(action, Action::Nothing);
    assert_eq!(r.value_write, 0x12);
    assert_eq!(r.state, ValState::Selected);
    assert_eq!(r.fields[1].value_write, 0x1);
    r.update(reg16::Message::InputChanged("0x1".to_string()));
    r.update(reg16::Message::InputChanged("0x1G".to_string()));
    assert_eq!(r.input_text, "0x1G");
    assert_eq!(r.value_write, 0x1);
    r.update(reg16::Message::InputChanged("300".to_string()));
    let action = r.update(reg16::Message::WriteValueSubmit);
    assert_eq!(action, Action::Write);
    assert_eq!(r.value_write, 300);
    assert_eq!(r.fields[2].value_write, 0x01);
    assert_eq!(r.fields[0].value_write, 0xC);
}

#[test]
fn register_toggle_select_read() {
    let mut r = mk_reg(10);
    assert_eq!(r.update(reg16::Message::ToggleExpand), Action::Nothing);
    assert!(r.expanded);
    r.update(reg16::Message::ToggleExpand);
    assert!(!r.expanded);
    r.update(reg16::Message::Select);
    assert_eq!(r.state, ValState::Selected);
    r.update(reg16::Message::Select);
    assert_eq!(r.state, ValState::Selected);
    assert_eq!(r.update(reg16::Message::Read), Action::Read);
}

#[test]
fn register_field_select_is_exclusive() {
    let mut r = mk_reg(10);
    r.update(reg16::Message::FieldChanged(0, field::Message::Select(InputId(11))));
    assert_eq!(r.fields[0].state, ValState::Selected);
    r.update(reg16::Message::FieldChanged(2, field::Message::Select(InputId(13))));
    assert_eq!(r.fields[0].state, ValState::Idle);
    assert_eq!(r.fields[2].state, ValState::Selected);
    r.update(reg16::Message::FieldChanged(2, field::Message::Select(InputId(13))));
    assert_eq!(r.fields[2].state, ValState::Editing);
}

#[test]
fn tree_selection_is_exclusive() {
    let mut tree = RegTree::new(vec![mk_reg(10), mk_reg(20), mk_reg(30)]);
    assert!(active_nodes(&tree).is_empty());
    let a = tree.update(1, reg16::Message::Select);
    assert_eq!(a, Action::Focus(InputId(20)));
    assert_eq!(active_nodes(&tree), vec![(1, None)]);
    let a = tree.update(2, reg16::Message::FieldChanged(1, field::Message::Select(InputId(32))));
    assert_eq!(a, Action::Focus(InputId(32)));
    assert_eq!(active_nodes(&tree), vec![(2, Some(1))]);
    tree.update(2, reg16::Message::FieldChanged(1, field::Message::Select(InputId(32))));
    assert_eq!(tree.regs[2].fields[1].state, ValState::Editing);
    assert_eq!(active_nodes(&tree), vec![(2, Some(1))]);
    tree.update(0, reg16::Message::FieldChanged(2, field::Message::Select(InputId(13))));
    assert_eq!(active_nodes(&tree), vec![(0, Some(2))]);
    tree.update(0, reg16::Message::Select);
    assert_eq!(active_nodes(&tree), vec![(0, None)]);
    tree.update(2, reg16::Message::Select);
    assert_eq!(active_nodes(&tree), vec![(2, None)]);
}

#[test]
fn tree_selection_discards_other_edit() {
    let mut tree = RegTree::new(vec![mk_reg(10), mk_reg(20)]);
    tree.update(0, reg16::Message::FieldChanged(0, field::Message::Select(InputId(11))));
    tree.update(0, reg16::Message::FieldChanged(0, field::Message::Select(InputId(11))));
    tree.update(0, reg16::Message::FieldChanged(0, field::Message::InputChanged("0x7".to_string())));
    assert_eq!(tree.regs[0].fields[0].state, ValState::Editing);
    tree.update(1, reg16::Message::Select);
    assert_eq!(tree.regs[0].fields[0].state, ValState::Idle);
    assert_eq!(tree.regs[0].value_write, 0);
    assert_eq!(active_nodes(&tree), vec![(1, None)]);
}

#[test]
fn tree_routes_other_messages() {
    let mut tree = RegTree::new(vec![mk_reg(10), mk_reg(20)]);
    assert_eq!(tree.update(1, reg16::Message::Read), Action::Read);
    tree.update(1, reg16::Message::InputChanged("0xBEEF".to_string()));
    assert_eq!(tree.update(1, reg16::Message::Write), Action::Write);
    assert_eq!(tree.regs[1].value_write, 0xBEEF);
    assert_eq!(tree.regs[0].value_write, 0);
    tree.set_value_read(0, 0x0F0F);
    assert_eq!(tree.regs[0].value_read, 0x0F0F);
    assert_eq!(tree.regs[0].fields[2].value_read, 0x0F);
    assert_eq!(tree.regs[0].fields[1].value_read, 0x0);
    assert_eq!(tree.regs[1].value_read, 0);
}
