//! Inline keyboards for choosing a user, and the messages that go with
//! them.

use vstd::prelude::*;

use crate::text::{
    byte_len_capped, chars_of, dec, floor_char_boundary, new_string, owned, prefix_bytes, push_dec,
    push_str, string_from_chars, utf8_len,
};
use crate::telegram::format::join_lines;
use crate::xray::types::XrayUser;
use crate::telegram::{DELETE_CANCEL_PREFIX, DELETE_CONFIRM_PREFIX};

verus! {

/// Telegram's limit on a button's callback data, in bytes.
pub const MAX_CALLBACK_DATA_BYTES: usize = 64;

/// A button: its label and the data sent back when it is pressed.
#[derive(Debug)]
pub struct Button {
    pub text: String,
    pub callback_data: String,
}

/// An inline keyboard, row by row.
#[derive(Debug)]
pub struct Keyboard {
    pub rows: Vec<Vec<Button>>,
}

/// A keyboard of user names, with the names that did not fit and the
/// number of users without a name.
#[derive(Debug)]
pub struct UserKeyboardResult {
    pub keyboard: Keyboard,
    pub skipped_names: Vec<String>,
    pub unnamed_count: usize,
}

/// The view of a button.
pub open spec fn button_view(b: Button) -> (Seq<char>, Seq<char>) {
    (b.text@, b.callback_data@)
}

/// The rows of a keyboard, each a sequence of (label, data).
pub open spec fn rows_view(rows: Seq<Vec<Button>>) -> Seq<Seq<(Seq<char>, Seq<char>)>> {
    Seq::new(rows.len(), |i: int| Seq::new(rows[i]@.len(), |j: int| button_view(rows[i]@[j])))
}

/// A named user whose button data fits.
pub open spec fn fits(prefix: Seq<char>, name: Seq<char>) -> bool {
    utf8_len(prefix) + utf8_len(name) <= MAX_CALLBACK_DATA_BYTES
}

/// The keyboard for `users`: one row per named user whose data fits, the
/// names that do not fit, and the number of unnamed users.
pub open spec fn user_keyboard(users: Seq<Seq<char>>, prefix: Seq<char>) -> (
    Seq<Seq<(Seq<char>, Seq<char>)>>,
    Seq<Seq<char>>,
    nat,
)
    decreases users.len(),
{
    if users.len() == 0 {
        (Seq::empty(), Seq::empty(), 0)
    } else {
        let (rows, skipped, unnamed) = user_keyboard(users.drop_last(), prefix);
        let name = users.last();
        if name.len() == 0 {
            (rows, skipped, unnamed + 1)
        } else if !fits(prefix, name) {
            (rows, skipped.push(name), unnamed)
        } else {
            (rows.push(seq![(name, prefix + name)]), skipped, unnamed)
        }
    }
}

/// Builds the keyboard listing `users`, each button carrying
/// `callback_prefix` followed by the user's name.
pub fn build_user_keyboard(users: &Vec<XrayUser>, callback_prefix: &str) -> (r: UserKeyboardResult)
    ensures
        (rows_view(r.keyboard.rows@), r.skipped_names@.map_values(|s: String| s@), r.unnamed_count as nat)
            == user_keyboard(users@.map_values(|u: XrayUser| u.name@), callback_prefix@),
{
    let ghost names = users@.map_values(|u: XrayUser| u.name@);
    let mut rows: Vec<Vec<Button>> = Vec::new();
    let mut skipped: Vec<String> = Vec::new();
    let mut unnamed: usize = 0;
    let prefix_len = byte_len_capped(callback_prefix, MAX_CALLBACK_DATA_BYTES + 1);
    let mut i: usize = 0;
    while i < users.len()
        invariant
            i <= users.len(),
            names == users@.map_values(|u: XrayUser| u.name@),
            prefix_len == if utf8_len(callback_prefix@) < MAX_CALLBACK_DATA_BYTES + 1 {
                utf8_len(callback_prefix@)
            } else {
                (MAX_CALLBACK_DATA_BYTES + 1) as nat
            },
            unnamed <= i,
            (rows_view(rows@), skipped@.map_values(|s: String| s@), unnamed as nat) == user_keyboard(
                names.subrange(0, i as int),
                callback_prefix@,
            ),
        decreases users.len() - i,
    {
        let name = &users[i].name;
        assert(names.subrange(0, i + 1).drop_last() =~= names.subrange(0, i as int));
        assert(names.subrange(0, i + 1).last() == name@);
        if name.as_str().unicode_len() == 0 {
            unnamed = unnamed + 1;
        } else {
            let name_len = byte_len_capped(name.as_str(), MAX_CALLBACK_DATA_BYTES + 1);
            if prefix_len + name_len > MAX_CALLBACK_DATA_BYTES {
                let ghost before = skipped@;
                skipped.push(owned(name.as_str()));
                assert(skipped@.map_values(|s: String| s@) =~= before.map_values(|s: String| s@).push(
                    name@,
                ));
            } else {
                let mut data = owned(callback_prefix);
                push_str(&mut data, name.as_str());
                let mut row: Vec<Button> = Vec::new();
                row.push(Button { text: owned(name.as_str()), callback_data: data });
                let ghost before = rows@;
                rows.push(row);
                assert(rows_view(rows@) =~= rows_view(before).push(seq![(name@, callback_prefix@ + name@)]))
                    by {
                    assert(rows_view(rows@)[before.len() as int] =~= seq![(name@, callback_prefix@ + name@)]);
                };
            }
        }
        i = i + 1;
    }
    assert(names.subrange(0, users.len() as int) =~= names);
    UserKeyboardResult { keyboard: Keyboard { rows }, skipped_names: skipped, unnamed_count: unnamed }
}

/// The confirmation keyboard of a deletion: "Yes, delete" and "Cancel".
pub fn delete_confirmation_keyboard(user_uuid: &str) -> (r: Keyboard)
    ensures
        rows_view(r.rows@) == seq![
            seq![
                ("Yes, delete"@, DELETE_CONFIRM_PREFIX@ + user_uuid@),
                ("Cancel"@, DELETE_CANCEL_PREFIX@ + user_uuid@),
            ],
        ],
{
    let mut confirm = owned(DELETE_CONFIRM_PREFIX);
    push_str(&mut confirm, user_uuid);
    let mut cancel = owned(DELETE_CANCEL_PREFIX);
    push_str(&mut cancel, user_uuid);
    let mut row: Vec<Button> = Vec::new();
    row.push(Button { text: owned("Yes, delete"), callback_data: confirm });
    row.push(Button { text: owned("Cancel"), callback_data: cancel });
    let mut rows: Vec<Vec<Button>> = Vec::new();
    rows.push(row);
    let r = Keyboard { rows };
    assert(rows_view(r.rows@)[0] =~= seq![
        ("Yes, delete"@, DELETE_CONFIRM_PREFIX@ + user_uuid@),
        ("Cancel"@, DELETE_CANCEL_PREFIX@ + user_uuid@),
    ]);
    assert(rows_view(r.rows@) =~= seq![
        seq![
            ("Yes, delete"@, DELETE_CONFIRM_PREFIX@ + user_uuid@),
            ("Cancel"@, DELETE_CANCEL_PREFIX@ + user_uuid@),
        ],
    ]);
    r
}

/// ` and N more`.
pub open spec fn more_text(n: nat) -> Seq<char> {
    " and "@ + dec(n) + " more"@
}

/// The number of leading characters of `s` that fit in `avail` bytes.
pub open spec fn fitting_chars(s: Seq<char>, avail: nat) -> int {
    choose|k: int|
        0 <= k <= s.len() && #[trigger] prefix_bytes(s, k) <= avail && (k == s.len() || prefix_bytes(
            s,
            k + 1,
        ) > avail)
}

/// The list of skipped names from the `shown`-th on, after `acc`.
pub open spec fn skipped_from(s: Seq<Seq<char>>, max: nat, shown: nat, acc: Seq<char>) -> Seq<char>
    decreases s.len() - shown,
{
    if shown >= s.len() {
        acc
    } else {
        let name = s[shown as int];
        let sep = if shown == 0 {
            ""@
        } else {
            ", "@
        };
        let remaining = (s.len() - shown) as nat;
        let needed = utf8_len(sep) + utf8_len(name);
        let budget = if remaining > 1 {
            needed + utf8_len(more_text((remaining - 1) as nat))
        } else {
            needed
        };
        if utf8_len(acc) + budget > max {
            if acc.len() == 0 {
                let avail = if max >= 3 {
                    (max - 3) as nat
                } else {
                    0
                };
                name.subrange(0, fitting_chars(name, avail)) + "..."@
            } else {
                acc + more_text(remaining)
            }
        } else {
            skipped_from(s, max, shown + 1, acc + sep + name)
        }
    }
}

/// The names joined with `, `.
pub open spec fn comma_joined(s: Seq<Seq<char>>) -> Seq<char>
    decreases s.len(),
{
    if s.len() == 0 {
        Seq::empty()
    } else if s.len() == 1 {
        s[0]
    } else {
        comma_joined(s.drop_last()) + ", "@ + s.last()
    }
}

/// All skipped names, joined with `, `, where they fit in `max` bytes;
/// else as many as fit with room kept for ` and N more`, then that
/// count; a first name that does not fit alone is cut and ends in `...`.
pub open spec fn skipped_text(s: Seq<Seq<char>>, max: nat) -> Seq<char> {
    if utf8_len(comma_joined(s)) <= max {
        comma_joined(s)
    } else {
        skipped_from(s, max, 0, Seq::empty())
    }
}

proof fn lemma_comma_joined_step(s: Seq<Seq<char>>, i: int)
    requires
        0 <= i < s.len(),
    ensures
        comma_joined(s.take(i + 1)) == if i == 0 {
            s[0]
        } else {
            comma_joined(s.take(i)) + ", "@ + s[i]
        },
        utf8_len(comma_joined(s.take(i + 1))) >= utf8_len(comma_joined(s.take(i))),
{
    assert(s.take(i + 1).drop_last() =~= s.take(i));
    if i == 0 {
        assert(s.take(0) =~= Seq::<Seq<char>>::empty());
    } else {
        crate::text::lemma_utf8_len_concat(comma_joined(s.take(i)), ", "@);
        crate::text::lemma_utf8_len_concat(comma_joined(s.take(i)) + ", "@, s[i]);
    }
}

/// Joined names only grow as names are added.
proof fn lemma_comma_joined_grows(s: Seq<Seq<char>>, i: int, k: int)
    requires
        0 <= i <= k <= s.len(),
    ensures
        utf8_len(comma_joined(s.take(i))) <= utf8_len(comma_joined(s.take(k))),
    decreases k - i,
{
    if i < k {
        lemma_comma_joined_step(s, k - 1);
        lemma_comma_joined_grows(s, i, k - 1);
    }
}

/// The names joined with `, ` when that fits in `max_bytes` bytes.
fn joined_if_fits(skipped: &Vec<String>, max_bytes: usize) -> (r: Option<String>)
    requires
        forall|i: int| 0 <= i < skipped.len() ==> utf8_len(#[trigger] skipped@[i]@) < usize::MAX,
    ensures
        match r {
            Some(j) => j@ == comma_joined(skipped@.map_values(|x: String| x@)) && utf8_len(j@) <= max_bytes,
            None => utf8_len(comma_joined(skipped@.map_values(|x: String| x@))) > max_bytes,
        },
{
    let ghost s = skipped@.map_values(|x: String| x@);
    let n = skipped.len();
    let mut j = new_string();
    let mut len: usize = 0;
    let mut i: usize = 0;
    proof {
        reveal_strlit(", ");
        assert(utf8_len(", "@) == 2) by {
            reveal_with_fuel(utf8_len, 3);
        }
        assert(s.take(0) =~= Seq::<Seq<char>>::empty());
    }
    while i < n
        invariant
            n == skipped.len(),
            s == skipped@.map_values(|x: String| x@),
            forall|k: int| 0 <= k < skipped.len() ==> utf8_len(#[trigger] skipped@[k]@) < usize::MAX,
            utf8_len(", "@) == 2,
            i <= n,
            j@ == comma_joined(s.take(i as int)),
            len == utf8_len(j@),
            len <= max_bytes,
        decreases n - i,
    {
        let sep_len: usize = if i == 0 {
            0
        } else {
            2
        };
        let name_len = byte_len_capped(skipped[i].as_str(), usize::MAX);
        assert(s[i as int] == skipped@[i as int]@);
        proof {
            lemma_comma_joined_step(s, i as int);
            if i > 0 {
                crate::text::lemma_utf8_len_concat(comma_joined(s.take(i as int)), ", "@);
                crate::text::lemma_utf8_len_concat(comma_joined(s.take(i as int)) + ", "@, s[i as int]);
            }
        }
        if len as u128 + sep_len as u128 + name_len as u128 > max_bytes as u128 {
            proof {
                lemma_comma_joined_grows(s, i + 1, n as int);
                assert(s.take(n as int) =~= s);
            }
            return None;
        }
        if i > 0 {
            push_str(&mut j, ", ");
        }
        push_str(&mut j, skipped[i].as_str());
        len = len + sep_len + name_len;
        i = i + 1;
    }
    assert(s.take(n as int) =~= s);
    Some(j)
}

proof fn lemma_fitting_chars(s: Seq<char>, avail: nat, k: int)
    requires
        0 <= k <= s.len(),
        prefix_bytes(s, k) <= avail,
        k == s.len() || prefix_bytes(s, k + 1) > avail,
    ensures
        fitting_chars(s, avail) == k,
{
    let c = fitting_chars(s, avail);
    if c < k {
        crate::text::lemma_prefix_bytes_strict(s, c + 1, k);
        if c + 1 == k {
        }
    } else if c > k {
        if k + 1 < c {
            crate::text::lemma_prefix_bytes_strict(s, k + 1, c);
        }
    }
}

/// ` and N more` as text.
fn more_string(n: usize) -> (r: String)
    ensures
        r@ == more_text(n as nat),
        utf8_len(r@) <= 30,
{
    proof {
        reveal_strlit(" and ");
        reveal_strlit(" more");
        assert(utf8_len(" and "@) == 5) by {
            reveal_with_fuel(utf8_len, 6);
        }
        assert(utf8_len(" more"@) == 5) by {
            reveal_with_fuel(utf8_len, 6);
        }
        crate::text::lemma_dec_utf8_len(n as nat);
        crate::text::lemma_utf8_len_concat(" and "@, dec(n as nat));
        crate::text::lemma_utf8_len_concat(" and "@ + dec(n as nat), " more"@);
    }
    let mut s = owned(" and ");
    push_dec(&mut s, n as u64);
    push_str(&mut s, " more");
    s
}

/// Formats the skipped names within `max_bytes` bytes.
fn format_skipped_names(skipped: &Vec<String>, max_bytes: usize) -> (r: String)
    requires
        forall|i: int| 0 <= i < skipped.len() ==> utf8_len(#[trigger] skipped@[i]@) < usize::MAX,
    ensures
        r@ == skipped_text(skipped@.map_values(|s: String| s@), max_bytes as nat),
{
    let ghost s = skipped@.map_values(|x: String| x@);
    if let Some(all) = joined_if_fits(skipped, max_bytes) {
        return all;
    }
    let n = skipped.len();
    let mut result = new_string();
    let mut rlen: usize = 0;
    let mut shown: usize = 0;
    while shown < n
        invariant
            n == skipped.len(),
            s == skipped@.map_values(|x: String| x@),
            forall|i: int| 0 <= i < skipped.len() ==> utf8_len(#[trigger] skipped@[i]@) < usize::MAX,
            shown <= n,
            rlen == utf8_len(result@),
            rlen <= max_bytes,
            skipped_from(s, max_bytes as nat, 0, Seq::empty()) == skipped_from(s, max_bytes as nat, shown as nat, result@),
            utf8_len(comma_joined(s)) > max_bytes,
        decreases n - shown,
    {
        let name = &skipped[shown];
        let sep: &str = if shown == 0 {
            ""
        } else {
            ", "
        };
        let remaining = n - shown;
        let sep_len = byte_len_capped(sep, usize::MAX);
        let name_len = byte_len_capped(name.as_str(), usize::MAX);
        proof {
            reveal_strlit("");
            reveal_strlit(", ");
            assert(utf8_len(""@) == 0);
            assert(utf8_len(", "@) == 2) by {
                reveal_with_fuel(utf8_len, 3);
            }
        }
        let needed: u128 = sep_len as u128 + name_len as u128;
        let budget: u128 = if remaining > 1 {
            let suffix = more_string(remaining - 1);
            needed + byte_len_capped(suffix.as_str(), usize::MAX) as u128
        } else {
            needed
        };
        if rlen as u128 + budget > max_bytes as u128 {
            if result.as_str().unicode_len() == 0 {
                let avail: usize = if max_bytes >= 3 {
                    max_bytes - 3
                } else {
                    0
                };
                let v = chars_of(name.as_str());
                let k = floor_char_boundary(&v, avail);
                proof {
                    lemma_fitting_chars(v@, avail as nat, k as int);
                }
                let mut out = string_from_chars(&v, 0, k);
                push_str(&mut out, "...");
                return out;
            }
            let more = more_string(remaining);
            push_str(&mut result, more.as_str());
            return result;
        }
        let ghost prev = result@;
        push_str(&mut result, sep);
        push_str(&mut result, name.as_str());
        proof {
            crate::text::lemma_utf8_len_concat(prev, sep@);
            crate::text::lemma_utf8_len_concat(prev + sep@, name@);
        }
        rlen = rlen + sep_len + name_len;
        shown = shown + 1;
    }
    result
}

/// The note on names too long for a button, in a selection prompt.
pub open spec fn long_names_note(skipped: Seq<Seq<char>>, max: nat) -> Seq<char> {
    dec(skipped.len())
        + " user(s) have names too long for inline buttons. Use the command with the name directly: "@
        + skipped_text(skipped, max)
}

/// The note on users without a name, in a selection prompt.
pub open spec fn unnamed_note(n: nat) -> Seq<char> {
    dec(n) + " unnamed user(s) not shown. Use /users to see them."@
}

/// A selection prompt with its notes.
pub open spec fn selection_text(base: Seq<char>, skipped: Seq<Seq<char>>, unnamed: nat) -> Seq<char> {
    let overhead = utf8_len(base) + 100;
    let max_names = if overhead < 3500 {
        (3500 - overhead) as nat
    } else {
        0
    };
    let notes = (if skipped.len() > 0 {
        seq![long_names_note(skipped, max_names)]
    } else {
        Seq::empty()
    }) + (if unnamed > 0 {
        seq![unnamed_note(unnamed)]
    } else {
        Seq::empty()
    });
    if notes.len() == 0 {
        base
    } else {
        base + "\n\nNote: "@ + join_lines(notes)
    }
}

/// Formats a user-selection prompt, with notes on the users that have no
/// button.
pub fn format_selection_message(base_msg: &str, skipped: &Vec<String>, unnamed_count: usize) -> (r:
    String)
    requires
        forall|i: int| 0 <= i < skipped.len() ==> utf8_len(#[trigger] skipped@[i]@) < usize::MAX,
    ensures
        r@ == selection_text(base_msg@, skipped@.map_values(|s: String| s@), unnamed_count as nat),
{
    let ghost sk = skipped@.map_values(|s: String| s@);
    let base_len = byte_len_capped(base_msg, 3500);
    let overhead = base_len + 100;
    let max_names: usize = if overhead < 3500 {
        3500 - overhead
    } else {
        0
    };
    let mut notes = new_string();
    let mut count: usize = 0;
    if skipped.len() > 0 {
        push_dec(&mut notes, skipped.len() as u64);
        push_str(
            &mut notes,
            " user(s) have names too long for inline buttons. Use the command with the name directly: ",
        );
        let names = format_skipped_names(skipped, max_names);
        push_str(&mut notes, names.as_str());
        count = 1;
    }
    let ghost first = notes@;
    if unnamed_count > 0 {
        if count > 0 {
            push_str(&mut notes, "\n");
        }
        push_dec(&mut notes, unnamed_count as u64);
        push_str(&mut notes, " unnamed user(s) not shown. Use /users to see them.");
        count = count + 1;
    }
    proof {
        let l1: Seq<Seq<char>> = if sk.len() > 0 {
            seq![long_names_note(sk, max_names as nat)]
        } else {
            Seq::empty()
        };
        let l2: Seq<Seq<char>> = if unnamed_count > 0 {
            seq![unnamed_note(unnamed_count as nat)]
        } else {
            Seq::empty()
        };
        reveal_with_fuel(join_lines, 3);
        if sk.len() > 0 && unnamed_count > 0 {
            let two = seq![long_names_note(sk, max_names as nat), unnamed_note(unnamed_count as nat)];
            assert(l1 + l2 =~= two);
            assert(two.drop_last() =~= seq![long_names_note(sk, max_names as nat)]);
            assert(notes@ =~= join_lines(l1 + l2));
        } else if sk.len() > 0 {
            assert(l1 + l2 =~= l1);
            assert(notes@ =~= join_lines(l1 + l2));
        } else if unnamed_count > 0 {
            assert(l1 + l2 =~= l2);
            assert(notes@ =~= join_lines(l1 + l2));
        } else {
            assert(l1 + l2 =~= Seq::<Seq<char>>::empty());
        }
    }
    if count == 0 {
        return owned(base_msg);
    }
    let mut out = owned(base_msg);
    push_str(&mut out, "\n\nNote: ");
    push_str(&mut out, notes.as_str());
    out
}

/// The message when there is no button to show.
pub open spec fn empty_keyboard_text(hint: Seq<char>, skipped: Seq<Seq<char>>, unnamed: nat) -> Seq<char> {
    let p1 = dec(skipped.len()) + " user(s) have names too long for inline buttons. Use "@ + hint
        + " directly for: "@ + skipped_text(skipped, 3900);
    let p2 = dec(unnamed) + " user(s) have no name set. Use /users to see them."@;
    if skipped.len() > 0 && unnamed > 0 {
        p1 + "\n\n"@ + p2
    } else if skipped.len() > 0 {
        p1
    } else if unnamed > 0 {
        p2
    } else {
        "No users found."@
    }
}

/// Formats the message for a choice with no button to show.
pub fn format_empty_keyboard_message(command_hint: &str, skipped: &Vec<String>, unnamed_count: usize) -> (r:
    String)
    requires
        forall|i: int| 0 <= i < skipped.len() ==> utf8_len(#[trigger] skipped@[i]@) < usize::MAX,
    ensures
        r@ == empty_keyboard_text(command_hint@, skipped@.map_values(|s: String| s@), unnamed_count as nat),
{
    if skipped.len() == 0 && unnamed_count == 0 {
        return owned("No users found.");
    }
    let mut out = new_string();
    if skipped.len() > 0 {
        push_dec(&mut out, skipped.len() as u64);
        push_str(&mut out, " user(s) have names too long for inline buttons. Use ");
        push_str(&mut out, command_hint);
        push_str(&mut out, " directly for: ");
        let names = format_skipped_names(skipped, 3900);
        push_str(&mut out, names.as_str());
        if unnamed_count > 0 {
            push_str(&mut out, "\n\n");
        }
    }
    if unnamed_count > 0 {
        push_dec(&mut out, unnamed_count as u64);
        push_str(&mut out, " user(s) have no name set. Use /users to see them.");
    }
    out
}

} // verus!
