//! The strings the interactive views show.
//!
//! Rendering itself (layout, colour, widgets) lives outside the library;
//! these functions compute exactly the text that gets drawn.

use vstd::prelude::*;
use vstd::utf8::encode_utf8;
use crate::session::{messages_view, MenuItem};

verus! {

/// Relies on `String::from_iter` over `char`: it builds the string of
/// exactly the given characters, in order.
#[verifier::external_body]
pub(crate) fn chars_to_string(cs: &Vec<char>) -> (r: String)
    ensures
        r@ == cs@,
{
    cs.iter().collect()
}

/// A list title: the entry's own title, or a fixed placeholder when it is
/// empty.
pub fn replace_if_empty(title: String) -> (r: String)
    ensures
        title@.len() == 0 ==> r@ == "[[Empty Title]]"@,
        title@.len() > 0 ==> r@ == title@,
{
    if title.as_str().is_empty() {
        "[[Empty Title]]".to_owned()
    } else {
        title
    }
}

/// A secret shown masked: one `*` per byte of its UTF-8 form while the
/// mask is on, the value itself otherwise.
pub fn display_password_correctly(value: String, show_value_expression: &bool) -> (r: String)
    ensures
        *show_value_expression ==> r@.len() == encode_utf8(value@).len() && (forall|i: int|
            0 <= i < r@.len() ==> r@[i] == '*'),
        !*show_value_expression ==> r@ == value@,
{
    if *show_value_expression {
        let bytes = value.as_str().as_bytes();
        let n = bytes.len();
        proof {
            assert(bytes@ == encode_utf8(value@));
        }
        let mut stars: Vec<char> = Vec::new();
        let mut k: usize = 0;
        while k < n
            invariant
                n == encode_utf8(value@).len(),
                0 <= k <= n,
                stars@.len() == k,
                forall|i: int| 0 <= i < k ==> stars@[i] == '*',
            decreases n - k,
        {
            stars.push('*');
            k = k + 1;
        }
        chars_to_string(&stars)
    } else {
        value
    }
}

/// The menu labels each view offers.
pub open spec fn spec_menu_labels(m: MenuItem) -> Seq<Seq<char>> {
    match m {
        MenuItem::SelctedEntry => seq![
            "home"@,
            "password-entries"@,
            "edit-value"@,
            "ESC-quit-edit"@,
            "copy-value"@,
            "show-secret"@,
            "quit"@,
        ],
        MenuItem::PasswordEntries => seq![
            "home"@,
            "password-entries"@,
            "select-entry"@,
            "add-entry"@,
            "remove-entry"@,
            "quit"@,
        ],
        MenuItem::Home => seq!["home"@, "password-entries"@, "quit"@],
    }
}

/// The menu entries of the active view, in display order.
pub fn get_menu_for_mode(active_menu_item: &MenuItem) -> (r: Vec<String>)
    ensures
        messages_view(r@) == spec_menu_labels(*active_menu_item),
{
    let mut out: Vec<String> = Vec::new();
    out.push("home".to_owned());
    out.push("password-entries".to_owned());
    match active_menu_item {
        MenuItem::SelctedEntry => {
            out.push("edit-value".to_owned());
            out.push("ESC-quit-edit".to_owned());
            out.push("copy-value".to_owned());
            out.push("show-secret".to_owned());
        },
        MenuItem::PasswordEntries => {
            out.push("select-entry".to_owned());
            out.push("add-entry".to_owned());
            out.push("remove-entry".to_owned());
        },
        MenuItem::Home => {
        },
    }
    out.push("quit".to_owned());
    proof {
        assert(messages_view(out@) =~= spec_menu_labels(*active_menu_item));
    }
    out
}

/// The three parts of the edit buffer around the cursor: what stands
/// before it, the character under it (empty when the cursor sits at the
/// end), and what follows.
pub fn editing_segments(input: &Vec<char>, input_index: usize) -> (r: (String, String, String))
    requires
        input_index <= input@.len(),
    ensures
        r.0@ == input@.take(input_index as int),
        input_index < input@.len() ==> r.1@ == seq![input@[input_index as int]] && r.2@
            == input@.skip(input_index + 1),
        input_index == input@.len() ==> r.1@ == Seq::<char>::empty() && r.2@ == Seq::<
            char,
        >::empty(),
{
    let n = input.len();
    let mut left: Vec<char> = Vec::new();
    let mut k: usize = 0;
    while k < input_index
        invariant
            0 <= k <= input_index <= input@.len(),
            left@ == input@.take(k as int),
        decreases input_index - k,
    {
        left.push(input[k]);
        proof {
            assert(left@ =~= input@.take(k + 1));
        }
        k = k + 1;
    }
    let mut middle: Vec<char> = Vec::new();
    let mut right: Vec<char> = Vec::new();
    if input_index < n {
        middle.push(input[input_index]);
        let mut j: usize = input_index + 1;
        while j < n
            invariant
                input_index + 1 <= j <= n,
                n == input@.len(),
                right@ == input@.subrange(input_index + 1, j as int),
            decreases n - j,
        {
            right.push(input[j]);
            proof {
                assert(right@ =~= input@.subrange(input_index + 1, j + 1));
            }
            j = j + 1;
        }
        proof {
            assert(middle@ =~= seq![input@[input_index as int]]);
            assert(right@ =~= input@.skip(input_index + 1));
        }
    }
    (chars_to_string(&left), chars_to_string(&middle), chars_to_string(&right))
}

} // verus!
