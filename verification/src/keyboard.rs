//! Keyboards of buttons: each button gets an id from its position, and the
//! buttons are laid out two to a row.

use vstd::prelude::*;
use crate::text::{decimal, push_decimal};
use crate::types::{Action, Button, Keyboard, KeyboardContent, KeyboardRow, Permission, RenderData};

verus! {

/// What pressing a button does.
pub enum ButtonAction {
    /// Opens the given link.
    Link(String),
    /// Sends the button's data back to the bot.
    Callback,
    /// Puts the button's data in the input box as a command.
    Command,
}

/// The `action.type` code of a button action.
pub open spec fn action_code(a: ButtonAction) -> u8 {
    match a {
        ButtonAction::Link(_) => 0,
        ButtonAction::Callback => 1,
        ButtonAction::Command => 2,
    }
}

/// The data that a button carries: the link for a link, else the button's own data.
pub open spec fn action_data(a: ButtonAction, data: Seq<char>) -> Seq<char> {
    match a {
        ButtonAction::Link(url) => url@,
        _ => data,
    }
}

/// The id of the button at position `i`: `btn_` followed by `i`.
pub open spec fn button_id(i: nat) -> Seq<char> {
    seq!['b', 't', 'n', '_'] + decimal(i)
}

/// `b` is the button built at position `i` from a label, data and action.
pub open spec fn button_built(b: Button, i: nat, label: Seq<char>, data: Seq<char>, a: ButtonAction) -> bool {
    &&& b.id@ == button_id(i)
    &&& b.render_data.label@ == label
    &&& b.render_data.visited_label@ == label
    &&& b.render_data.style == 1
    &&& b.action.action_type == action_code(a)
    &&& b.action.permission.permission_type == 2
    &&& b.action.permission.specify_role_ids is None
    &&& b.action.permission.specify_user_ids is None
    &&& b.action.data matches Some(d) && d@ == action_data(a, data)
    &&& b.action.reply == Some(false)
    &&& b.action.enter == Some(true)
}

/// The number of buttons in row `j` of a keyboard of `n` buttons, two to a row.
pub open spec fn row_width(n: nat, j: nat) -> nat {
    if 2 * j + 1 < n { 2 } else { 1 }
}

/// `rows` holds the buttons built from `input`, in order, two to a row.
pub open spec fn rows_built(rows: Seq<KeyboardRow>, input: Seq<(String, String, ButtonAction)>) -> bool {
    &&& rows.len() == (input.len() + 1) / 2
    &&& forall|j: int| 0 <= j < rows.len() ==> #[trigger] rows[j].buttons@.len() == row_width(input.len(), j as nat)
    &&& forall|j: int, t: int|
        0 <= j < rows.len() && 0 <= t < rows[j].buttons@.len() ==> button_built(
            #[trigger] rows[j].buttons@[t],
            (2 * j + t) as nat,
            input[2 * j + t].0@,
            input[2 * j + t].1@,
            input[2 * j + t].2,
        )
}

/// Builds the button at position `i`.
fn make_button(i: usize, label: &String, data: &String, action: &ButtonAction) -> (b: Button)
    ensures
        button_built(b, i as nat, label@, data@, *action),
{
    let mut id = String::new();
    id.push('b');
    id.push('t');
    id.push('n');
    id.push('_');
    push_decimal(&mut id, i as u128);
    assert(id@ =~= button_id(i as nat));
    let (action_type, action_data): (u8, String) = match action {
        ButtonAction::Link(url) => (0, url.clone()),
        ButtonAction::Callback => (1, data.clone()),
        ButtonAction::Command => (2, data.clone()),
    };
    Button {
        id,
        render_data: RenderData { label: label.clone(), visited_label: label.clone(), style: 1 },
        action: Action {
            action_type,
            permission: Permission { permission_type: 2, specify_role_ids: None, specify_user_ids: None },
            data: Some(action_data),
            reply: Some(false),
            enter: Some(true),
        },
    }
}

/// Builds a keyboard from (label, data, action) triples: button `i` gets the id
/// `btn_i`, shows its label in blue, may be pressed by everyone, and the buttons
/// are laid out two to a row in the order given.
pub fn build_keyboard(buttons: Vec<(String, String, ButtonAction)>) -> (k: Keyboard)
    ensures
        k.id is None,
        rows_built(k.content.rows@, buttons@),
{
    let n = buttons.len();
    let mut rows: Vec<KeyboardRow> = Vec::new();
    let mut pending: Option<Button> = None;
    let mut i: usize = 0;
    while i < n
        invariant
            n == buttons@.len(),
            i <= n,
            rows@.len() == i / 2,
            i % 2 == 1 <==> pending is Some,
            pending matches Some(b) ==> button_built(b, (i - 1) as nat, buttons@[i - 1].0@, buttons@[i - 1].1@, buttons@[i - 1].2),
            forall|j: int| 0 <= j < rows@.len() ==> #[trigger] rows@[j].buttons@.len() == 2,
            forall|j: int, t: int|
                0 <= j < rows@.len() && 0 <= t < rows@[j].buttons@.len() ==> button_built(
                    #[trigger] rows@[j].buttons@[t],
                    (2 * j + t) as nat,
                    buttons@[2 * j + t].0@,
                    buttons@[2 * j + t].1@,
                    buttons@[2 * j + t].2,
                ),
        decreases n - i,
    {
        let b = make_button(i, &buttons[i].0, &buttons[i].1, &buttons[i].2);
        if i % 2 == 0 {
            pending = Some(b);
        } else {
            let first = pending.take().unwrap();
            let mut pair: Vec<Button> = Vec::new();
            pair.push(first);
            pair.push(b);
            let ghost old_rows = rows@;
            rows.push(KeyboardRow { buttons: pair });
            assert forall|j: int, t: int|
                0 <= j < rows@.len() && 0 <= t < rows@[j].buttons@.len() implies button_built(
                    #[trigger] rows@[j].buttons@[t],
                    (2 * j + t) as nat,
                    buttons@[2 * j + t].0@,
                    buttons@[2 * j + t].1@,
                    buttons@[2 * j + t].2,
                ) by {
                if j < old_rows.len() {
                    assert(rows@[j] == old_rows[j]);
                } else {
                    assert(j == i / 2);
                }
            }
        }
        i = i + 1;
    }
    let ghost full_rows = rows@;
    if pending.is_some() {
        let last = pending.take().unwrap();
        let mut single: Vec<Button> = Vec::new();
        single.push(last);
        rows.push(KeyboardRow { buttons: single });
        assert forall|j: int, t: int|
            0 <= j < rows@.len() && 0 <= t < rows@[j].buttons@.len() implies button_built(
                #[trigger] rows@[j].buttons@[t],
                (2 * j + t) as nat,
                buttons@[2 * j + t].0@,
                buttons@[2 * j + t].1@,
                buttons@[2 * j + t].2,
            ) by {
            if j < full_rows.len() {
                assert(rows@[j] == full_rows[j]);
            }
        }
    }
    assert forall|j: int| 0 <= j < rows@.len() implies #[trigger] rows@[j].buttons@.len() == row_width(n as nat, j as nat) by {
        if j < full_rows.len() {
            assert(rows@[j] == full_rows[j]);
        }
    }
    Keyboard { id: None, content: KeyboardContent { rows } }
}


/// Every button lands in the keyboard: button `i` is the `i % 2`-th of row
/// `i / 2`, and no row holds more than two buttons.
pub proof fn lemma_every_button_placed(rows: Seq<KeyboardRow>, input: Seq<(String, String, ButtonAction)>, i: int)
    requires
        rows_built(rows, input),
        0 <= i < input.len(),
    ensures
        i / 2 < rows.len(),
        i % 2 < rows[i / 2].buttons@.len(),
        rows[i / 2].buttons@.len() <= 2,
        button_built(rows[i / 2].buttons@[i % 2], i as nat, input[i].0@, input[i].1@, input[i].2),
{
    let j = i / 2;
    let t = i % 2;
    assert(rows[j].buttons@.len() == row_width(input.len(), j as nat));
    assert(2 * j + t == i);
}

} // verus!
