use vstd::prelude::*;
use vstd::string::*;

use crate::text::{digits, is_white_space, trim_white_space, trimmed, unsigned_text, white_space};

verus! {

/// The character's code with ASCII capitals folded to lower case.
pub open spec fn ascii_fold(c: char) -> u32 {
    let u = c as u32;
    if 0x41 <= u <= 0x5a { (u + 0x20) as u32 } else { u }
}

/// Whether two texts are equal up to ASCII case.
pub open spec fn same_ignoring_case(a: Seq<char>, b: Seq<char>) -> bool {
    a.len() == b.len() && forall|i: int| 0 <= i < a.len() ==> ascii_fold(#[trigger] a[i]) == ascii_fold(b[i])
}

/// Whether `s` begins with `p` up to ASCII case.
pub open spec fn starts_ignoring_case(s: Seq<char>, p: Seq<char>) -> bool {
    p.len() <= s.len() && same_ignoring_case(s.take(p.len() as int), p)
}

fn fold(c: char) -> (r: u32)
    ensures
        r == ascii_fold(c),
{
    let u = c as u32;
    if 0x41 <= u && u <= 0x5a { u + 0x20 } else { u }
}

/// Whether `s` begins with `p`, ignoring ASCII case.
pub fn starts_with_ignoring_case(s: &str, p: &str) -> (r: bool)
    ensures
        r == starts_ignoring_case(s@, p@),
{
    let n = p.unicode_len();
    if n > s.unicode_len() {
        return false;
    }
    let mut i: usize = 0;
    while i < n
        invariant
            n == p@.len(),
            n <= s@.len(),
            i <= n,
            forall|j: int| 0 <= j < i ==> ascii_fold(#[trigger] s@[j]) == ascii_fold(p@[j]),
        decreases n - i,
    {
        if fold(s.get_char(i)) != fold(p.get_char(i)) {
            assert(s@.take(n as int)[i as int] == s@[i as int]);
            return false;
        }
        i = i + 1;
    }
    assert forall|j: int| 0 <= j < n implies ascii_fold(#[trigger] s@.take(n as int)[j]) == ascii_fold(p@[j]) by {
        assert(s@.take(n as int)[j] == s@[j]);
    }
    true
}

/// Whether `a` and `b` are equal, ignoring ASCII case.
pub fn equals_ignoring_case(a: &str, b: &str) -> (r: bool)
    ensures
        r == same_ignoring_case(a@, b@),
{
    if a.unicode_len() != b.unicode_len() {
        return false;
    }
    let r = starts_with_ignoring_case(a, b);
    proof {
        assert(a@.take(a@.len() as int) =~= a@);
    }
    r
}

/// Index of the first white-space character, or the length when there is none.
pub open spec fn first_space(s: Seq<char>) -> int
    decreases s.len(),
{
    if s.len() == 0 {
        0
    } else if is_white_space(s[0]) {
        0
    } else {
        1 + first_space(s.drop_first())
    }
}

proof fn lemma_first_space(s: Seq<char>)
    ensures
        0 <= first_space(s) <= s.len(),
        first_space(s) < s.len() ==> is_white_space(s[first_space(s)]),
        forall|j: int| 0 <= j < first_space(s) ==> !is_white_space(#[trigger] s[j]),
    decreases s.len(),
{
    if s.len() > 0 && !is_white_space(s[0]) {
        lemma_first_space(s.drop_first());
        assert forall|j: int| 0 <= j < first_space(s) implies !is_white_space(#[trigger] s[j]) by {
            if j > 0 {
                assert(s[j] == s.drop_first()[j - 1]);
            }
        }
    }
}

/// A command word and its arguments: the text up to the first white space,
/// and the rest after it with surrounding white space removed.
pub open spec fn split_command(rest: Seq<char>) -> (Seq<char>, Seq<char>) {
    let k = first_space(rest);
    if k < rest.len() {
        (rest.take(k), trimmed(rest.skip(k + 1)))
    } else {
        (rest, Seq::empty())
    }
}

/// What a chat message asks of the bot: `None` when it is not addressed to
/// it, else the command word and its arguments. Messages are addressed with
/// a leading "/slatehub " or "/sh " in any case; the bare prefix asks for help.
pub open spec fn command_of(text: Seq<char>) -> Option<(Seq<char>, Seq<char>)> {
    let t = trimmed(text);
    if starts_ignoring_case(t, "/slatehub "@) {
        Some(split_command(t.skip(10)))
    } else if starts_ignoring_case(t, "/sh "@) {
        Some(split_command(t.skip(4)))
    } else if same_ignoring_case(t, "/slatehub"@) || same_ignoring_case(t, "/sh"@) {
        Some(("help"@, Seq::empty()))
    } else {
        None
    }
}

fn split_at_space<'a>(rest: &'a str) -> (r: (&'a str, &'a str))
    ensures
        (r.0@, r.1@) == split_command(rest@),
{
    proof {
        lemma_first_space(rest@);
    }
    let n = rest.unicode_len();
    let mut k: usize = 0;
    while k < n && !white_space(rest.get_char(k))
        invariant
            n == rest@.len(),
            k <= first_space(rest@),
            forall|j: int| 0 <= j < first_space(rest@) ==> !is_white_space(#[trigger] rest@[j]),
            first_space(rest@) < rest@.len() ==> is_white_space(rest@[first_space(rest@)]),
            first_space(rest@) <= rest@.len(),
        decreases n - k,
    {
        k = k + 1;
    }
    assert(k == first_space(rest@));
    proof {
        reveal_strlit("");
    }
    if k < n {
        let command = rest.substring_char(0, k);
        assert(command@ =~= rest@.take(k as int));
        let tail = rest.substring_char(k + 1, n);
        assert(tail@ =~= rest@.skip(k + 1));
        (command, trim_white_space(tail))
    } else {
        let command = rest.substring_char(0, n);
        assert(command@ =~= rest@);
        assert(""@ =~= Seq::<char>::empty());
        (command, "")
    }
}

/// The command word and arguments of a chat message addressed to the bot.
pub fn parse_command(text: &str) -> (r: Option<(&str, &str)>)
    ensures
        match r {
            Some((c, a)) => command_of(text@) == Some((c@, a@)),
            None => command_of(text@) is None,
        },
{
    proof {
        reveal_strlit("/slatehub ");
        reveal_strlit("/sh ");
        reveal_strlit("help");
        reveal_strlit("");
    }
    let t = trim_white_space(text);
    let n = t.unicode_len();
    if starts_with_ignoring_case(t, "/slatehub ") {
        let rest = t.substring_char(10, n);
        assert(rest@ =~= t@.skip(10));
        Some(split_at_space(rest))
    } else if starts_with_ignoring_case(t, "/sh ") {
        let rest = t.substring_char(4, n);
        assert(rest@ =~= t@.skip(4));
        Some(split_at_space(rest))
    } else if equals_ignoring_case(t, "/slatehub") || equals_ignoring_case(t, "/sh") {
        assert(""@ =~= Seq::<char>::empty());
        Some(("help", ""))
    } else {
        None
    }
}


/// Whether `s` holds " x" or " X" at position `i`.
pub open spec fn is_quantity_marker(s: Seq<char>, i: int) -> bool {
    0 <= i && i + 1 < s.len() && s[i] == ' ' && (s[i + 1] == 'x' || s[i + 1] == 'X')
}

/// The last quantity marker that starts below `k`, or -1 when there is none.
pub open spec fn last_marker_below(s: Seq<char>, k: int) -> int
    decreases k,
{
    if k <= 0 {
        -1
    } else if is_quantity_marker(s, k - 1) {
        k - 1
    } else {
        last_marker_below(s, k - 1)
    }
}

pub open spec fn is_ascii_digit(c: char) -> bool {
    0x30 <= c as u32 <= 0x39
}

/// The ASCII digits of `s`, in order, everything else left out.
pub open spec fn ascii_digits(s: Seq<char>) -> Seq<char>
    decreases s.len(),
{
    if s.len() == 0 {
        Seq::empty()
    } else {
        let rest = ascii_digits(s.drop_last());
        if is_ascii_digit(s.last()) { rest.push(s.last()) } else { rest }
    }
}

/// The number that a string of ASCII digits writes in decimal.
pub open spec fn digits_value(ds: Seq<char>) -> nat
    decreases ds.len(),
{
    if ds.len() == 0 {
        0
    } else {
        digits_value(ds.drop_last()) * 10 + (ds.last() as u32 - 0x30) as nat
    }
}

/// An item name and quantity from the arguments of "add" or "update": the
/// arguments, trimmed, may end in " x N" (any case of x, digits anywhere
/// after it); the quantity is 1 unless that marker's digits read a number
/// from 1 to `u32::MAX`, and then the name is what stands before the marker.
pub open spec fn item_of(args: Seq<char>) -> (Seq<char>, u32) {
    let a = trimmed(args);
    let i = last_marker_below(a, a.len() as int);
    let ds = ascii_digits(a.skip(i));
    if i >= 0 && ds.len() > 0 && 0 < digits_value(ds) <= u32::MAX {
        (trimmed(a.take(i)), digits_value(ds) as u32)
    } else {
        (a, 1)
    }
}

fn quantity_marker_at(a: &str, n: usize, i: usize) -> (r: bool)
    requires
        n == a@.len(),
        i < n,
    ensures
        r == is_quantity_marker(a@, i as int),
{
    if i + 1 >= n {
        return false;
    }
    let c = a.get_char(i);
    let d = a.get_char(i + 1);
    c == ' ' && (d == 'x' || d == 'X')
}

/// The digits of `q` and the number they write, when it fits in `u32`.
fn quantity_digits(q: &str) -> (r: (usize, Option<u32>))
    ensures
        r.0 == ascii_digits(q@).len(),
        r.1 matches Some(v) ==> v == digits_value(ascii_digits(q@)),
        r.1 is None <==> digits_value(ascii_digits(q@)) > u32::MAX,
{
    let n = q.unicode_len();
    let mut count: usize = 0;
    let mut value: u64 = 0;
    let mut over = false;
    let mut j: usize = 0;
    while j < n
        invariant
            n == q@.len(),
            j <= n,
            count == ascii_digits(q@.take(j as int)).len(),
            count <= j,
            over == (digits_value(ascii_digits(q@.take(j as int))) > u32::MAX),
            !over ==> value == digits_value(ascii_digits(q@.take(j as int))),
        decreases n - j,
    {
        let c = q.get_char(j);
        let ghost before = ascii_digits(q@.take(j as int));
        assert(q@.take(j + 1).drop_last() =~= q@.take(j as int));
        assert(q@.take(j + 1).last() == c);
        if 0x30 <= c as u32 && c as u32 <= 0x39 {
            let d = (c as u32 - 0x30) as u64;
            let ghost after = before.push(c);
            assert(after.drop_last() =~= before);
            assert(digits_value(after) == digits_value(before) * 10 + d);
            count = count + 1;
            if !over {
                let next = value * 10 + d;
                if next > 0xffff_ffff {
                    over = true;
                } else {
                    value = next;
                }
            }
        }
        j = j + 1;
    }
    assert(q@.take(n as int) =~= q@);
    if over { (count, None) } else { (count, Some(value as u32)) }
}

/// Splits "add"/"update" arguments into an item name and a quantity.
pub fn parse_item_with_quantity(args: &str) -> (r: (String, u32))
    ensures
        (r.0@, r.1) == item_of(args@),
{
    let a = trim_white_space(args);
    let n = a.unicode_len();
    let mut k: usize = n;
    while k > 0 && !quantity_marker_at(a, n, k - 1)
        invariant
            n == a@.len(),
            k <= n,
            last_marker_below(a@, n as int) == last_marker_below(a@, k as int),
        decreases k,
    {
        k = k - 1;
    }
    if k > 0 {
        let i = k - 1;
        let tail = a.substring_char(i, n);
        assert(tail@ =~= a@.skip(i as int));
        let (count, value) = quantity_digits(tail);
        if let Some(v) = value {
            if count > 0 && v > 0 {
                let name = trim_white_space(a.substring_char(0, i));
                assert(a@.subrange(0, i as int) =~= a@.take(i as int));
                return (String::from_str(name), v);
            }
        }
    }
    (String::from_str(a), 1)
}


/// A piece of equipment on a chat's list.
#[derive(Debug)]
pub struct EquipmentItem {
    pub name: String,
    pub quantity: u32,
}

/// A list of equipment as names and quantities.
pub open spec fn item_views(items: Seq<EquipmentItem>) -> Seq<(Seq<char>, u32)> {
    items.map_values(|i: EquipmentItem| (i.name@, i.quantity))
}

/// What `str::to_lowercase` makes of a text.
pub uninterp spec fn lower_of(s: Seq<char>) -> Seq<char>;

/// Relies on `str::to_lowercase`: the lower-case mapping of the text, which
/// depends on its characters alone.
#[verifier::external_body]
fn lowercase(s: &str) -> (r: String)
    ensures
        r@ == lower_of(s@),
{
    s.to_lowercase()
}

/// The first index from `j` on where `names` holds `key`, or -1.
pub open spec fn first_equal_from(names: Seq<Seq<char>>, key: Seq<char>, j: int) -> int
    decreases names.len() - j,
{
    if j < 0 || j >= names.len() {
        -1
    } else if names[j] == key {
        j
    } else {
        first_equal_from(names, key, j + 1)
    }
}

/// The names of a list, lower-cased.
pub open spec fn folded_names(items: Seq<(Seq<char>, u32)>) -> Seq<Seq<char>> {
    items.map_values(|i: (Seq<char>, u32)| lower_of(i.0))
}

/// The first item whose name equals `key` once both are lower-cased, or -1.
pub open spec fn find_item_spec(items: Seq<(Seq<char>, u32)>, key: Seq<char>) -> int {
    first_equal_from(folded_names(items), lower_of(key), 0)
}

proof fn lemma_first_equal_from(names: Seq<Seq<char>>, key: Seq<char>, j: int)
    requires
        0 <= j,
    ensures
        -1 <= first_equal_from(names, key, j) < names.len(),
    decreases names.len() - j,
{
    if j < names.len() && names[j] != key {
        lemma_first_equal_from(names, key, j + 1);
    }
}

/// The position of the first name equal to `key`.
pub fn first_equal(names: &Vec<String>, key: &String) -> (r: Option<usize>)
    ensures
        match r {
            Some(j) => first_equal_from(names@.map_values(|s: String| s@), key@, 0) == j as int,
            None => first_equal_from(names@.map_values(|s: String| s@), key@, 0) == -1,
        },
{
    let ghost views = names@.map_values(|s: String| s@);
    let mut j: usize = 0;
    while j < names.len()
        invariant
            views == names@.map_values(|s: String| s@),
            j <= names@.len(),
            first_equal_from(views, key@, 0) == first_equal_from(views, key@, j as int),
        decreases names@.len() - j,
    {
        assert(views[j as int] == names@[j as int]@);
        if names[j] == *key {
            return Some(j);
        }
        j = j + 1;
    }
    None
}

pub const HELP_TEXT: &'static str = "*SlateHub Equipment Bot Commands*\n\n/sh add <item> [x quantity] - Add equipment\n/sh remove <item> - Remove equipment\n/sh list - Show all equipment\n/sh clear - Clear all equipment\n/sh update <item> x <quantity> - Update quantity\n\n_Examples:_\n/sh add ARRI Alexa Mini\n/sh add C-Stand x 5\n/sh update C-Stand x 10\n/sh remove C-Stand\n\n_You can also use /slatehub instead of /sh_";

pub const ADD_USAGE: &'static str = "Usage: /sh add <item> [x quantity]\nExample: /sh add C-Stand x 5";

pub const REMOVE_USAGE: &'static str = "Usage: /sh remove <item>\nExample: /sh remove C-Stand";

pub const UPDATE_USAGE: &'static str = "Usage: /sh update <item> x <quantity>\nExample: /sh update C-Stand x 10";

pub const EMPTY_LIST: &'static str = "Equipment list is empty.\nUse !add <item> to add equipment.";

pub const CLEARED: &'static str = "Equipment list cleared.";

/// One line of the list: its number from 1, the name, and " x N" when more than one.
pub open spec fn list_line(index: int, item: (Seq<char>, u32)) -> Seq<char> {
    digits((index + 1) as nat) + ". "@ + item.0 + (if item.1 > 1 {
        " x "@ + digits(item.1 as nat)
    } else {
        Seq::empty()
    }) + "\n"@
}

pub open spec fn list_lines(items: Seq<(Seq<char>, u32)>) -> Seq<char>
    decreases items.len(),
{
    if items.len() == 0 {
        Seq::empty()
    } else {
        list_lines(items.drop_last()) + list_line(items.len() - 1, items.last())
    }
}

/// The reply to "list" for a list that is not empty.
pub open spec fn list_text(items: Seq<(Seq<char>, u32)>) -> Seq<char> {
    "*Equipment List*\n\n"@ + list_lines(items) + "\n_Total: "@ + digits(items.len()) + " items_"@
}

pub open spec fn saturating_sum(a: u32, b: u32) -> u32 {
    if a + b > u32::MAX { u32::MAX } else { (a + b) as u32 }
}

pub open spec fn updated_reply(name: Seq<char>, quantity: u32) -> Seq<char> {
    "Updated *"@ + name + "* quantity to "@ + digits(quantity as nat)
}

/// The list after a command and the reply to it (`None`: the bot stays
/// silent). Command words are matched ignoring case.
pub open spec fn command_outcome(cmd: Seq<char>, args: Seq<char>, items: Seq<(Seq<char>, u32)>) -> (
    Seq<(Seq<char>, u32)>,
    Option<Seq<char>>,
) {
    if same_ignoring_case(cmd, "help"@) || same_ignoring_case(cmd, "equiphelp"@) {
        (items, Some(HELP_TEXT@))
    } else if same_ignoring_case(cmd, "add"@) {
        if args.len() == 0 {
            (items, Some(ADD_USAGE@))
        } else {
            let (name, quantity) = item_of(args);
            let j = find_item_spec(items, name);
            if j >= 0 {
                let total = saturating_sum(items[j].1, quantity);
                (items.update(j, (items[j].0, total)), Some(updated_reply(items[j].0, total)))
            } else if quantity > 1 {
                (items.push((name, quantity)), Some("Added *"@ + name + "* x "@ + digits(quantity as nat)))
            } else {
                (items.push((name, quantity)), Some("Added *"@ + name + "*"@))
            }
        }
    } else if same_ignoring_case(cmd, "remove"@) || same_ignoring_case(cmd, "delete"@)
        || same_ignoring_case(cmd, "rm"@) {
        if args.len() == 0 {
            (items, Some(REMOVE_USAGE@))
        } else {
            let j = find_item_spec(items, args);
            if j >= 0 {
                (items.remove(j), Some("Removed *"@ + items[j].0 + "*"@))
            } else {
                (items, Some("Item '"@ + args + "' not found in equipment list"@))
            }
        }
    } else if same_ignoring_case(cmd, "list"@) || same_ignoring_case(cmd, "ls"@)
        || same_ignoring_case(cmd, "equipment"@) {
        (items, Some(if items.len() == 0 { EMPTY_LIST@ } else { list_text(items) }))
    } else if same_ignoring_case(cmd, "clear"@) || same_ignoring_case(cmd, "reset"@) {
        (Seq::empty(), Some(CLEARED@))
    } else if same_ignoring_case(cmd, "update"@) || same_ignoring_case(cmd, "set"@) {
        if args.len() == 0 {
            (items, Some(UPDATE_USAGE@))
        } else {
            let (name, quantity) = item_of(args);
            let j = find_item_spec(items, name);
            if j >= 0 {
                (items.update(j, (items[j].0, quantity)), Some(updated_reply(items[j].0, quantity)))
            } else {
                (items, Some("Item '"@ + name + "' not found. Use !add to add new items."@))
            }
        }
    } else {
        (items, None)
    }
}

/// The view of a reply.
pub open spec fn reply_view(r: Option<String>) -> Option<Seq<char>> {
    match r {
        Some(s) => Some(s@),
        None => None,
    }
}

fn find_item(items: &Vec<EquipmentItem>, key: &str) -> (r: Option<usize>)
    ensures
        match r {
            Some(j) => find_item_spec(item_views(items@), key@) == j as int,
            None => find_item_spec(item_views(items@), key@) == -1,
        },
{
    let ghost views = item_views(items@);
    let mut folded: Vec<String> = Vec::new();
    let mut i: usize = 0;
    while i < items.len()
        invariant
            views == item_views(items@),
            i <= items@.len(),
            folded@.len() == i,
            folded@.map_values(|s: String| s@) =~= folded_names(views).take(i as int),
        decreases items@.len() - i,
    {
        let ghost before = folded@;
        let low = lowercase(items[i].name.as_str());
        let ghost low_view = low@;
        folded.push(low);
        assert(views[i as int] == (items@[i as int].name@, items@[i as int].quantity));
        assert(folded_names(views)[i as int] == low_view);
        assert(before.map_values(|s: String| s@) =~= folded_names(views).take(i as int));
        assert forall|k: int| 0 <= k < i implies #[trigger] folded@[k]@ == folded_names(views)[k] by {
            assert(folded@[k] == before[k]);
            assert(before.map_values(|s: String| s@)[k] == folded_names(views).take(i as int)[k]);
        }
        assert(folded@.map_values(|s: String| s@) =~= folded_names(views).take(i + 1));
        i = i + 1;
    }
    assert(folded_names(views).take(items@.len() as int) =~= folded_names(views));
    let wanted = lowercase(key);
    first_equal(&folded, &wanted)
}

fn one_of(cmd: &str, a: &str, b: &str, c: &str) -> (r: bool)
    ensures
        r == (same_ignoring_case(cmd@, a@) || same_ignoring_case(cmd@, b@) || same_ignoring_case(cmd@, c@)),
{
    equals_ignoring_case(cmd, a) || equals_ignoring_case(cmd, b) || equals_ignoring_case(cmd, c)
}

fn updated(items: &mut Vec<EquipmentItem>, j: usize, quantity: u32) -> (reply: String)
    requires
        j < old(items)@.len(),
    ensures
        item_views(final(items)@) == item_views(old(items)@).update(
            j as int,
            (old(items)@[j as int].name@, quantity),
        ),
        reply@ == updated_reply(old(items)@[j as int].name@, quantity),
{
    let ghost before = items@;
    let old_item = items.remove(j);
    let mut reply = String::from_str("Updated *");
    reply.append(old_item.name.as_str());
    reply.append("* quantity to ");
    reply.append(unsigned_text(quantity as u64).as_str());
    items.insert(j, EquipmentItem { name: old_item.name, quantity });
    assert(item_views(items@) =~= item_views(before).update(j as int, (before[j as int].name@, quantity)));
    reply
}

fn list_reply(items: &Vec<EquipmentItem>) -> (r: String)
    requires
        items@.len() > 0,
    ensures
        r@ == list_text(item_views(items@)),
{
    let ghost views = item_views(items@);
    let mut r = String::from_str("*Equipment List*\n\n");
    let ghost head = r@;
    let mut i: usize = 0;
    while i < items.len()
        invariant
            views == item_views(items@),
            i <= items@.len(),
            r@ == head + list_lines(views.take(i as int)),
        decreases items@.len() - i,
    {
        let item = &items[i];
        let mut line = unsigned_text((i + 1) as u64);
        line.append(". ");
        line.append(item.name.as_str());
        if item.quantity > 1 {
            line.append(" x ");
            line.append(unsigned_text(item.quantity as u64).as_str());
        }
        line.append("\n");
        let ghost next = views.take(i + 1);
        assert(next.drop_last() =~= views.take(i as int));
        assert(next.last() == views[i as int]);
        assert(line@ =~= list_line(i as int, views[i as int]));
        r.append(line.as_str());
        assert(r@ =~= head + list_lines(next));
        i = i + 1;
    }
    assert(views.take(items@.len() as int) =~= views);
    r.append("\n_Total: ");
    r.append(unsigned_text(items.len() as u64).as_str());
    r.append(" items_");
    assert(r@ =~= list_text(views));
    r
}

/// Carries out a bot command on a chat's equipment list and returns the
/// reply, or `None` for a command the bot does not know.
pub fn process_command(command: &str, args: &str, items: &mut Vec<EquipmentItem>) -> (r: Option<String>)
    ensures
        (item_views(final(items)@), reply_view(r)) == command_outcome(command@, args@, item_views(old(items)@)),
{
    let ghost before = item_views(items@);
    if one_of(command, "help", "equiphelp", "equiphelp") {
        return Some(String::from_str(HELP_TEXT));
    }
    if equals_ignoring_case(command, "add") {
        if args.unicode_len() == 0 {
            return Some(String::from_str(ADD_USAGE));
        }
        let (name, quantity) = parse_item_with_quantity(args);
        match find_item(items, name.as_str()) {
            Some(j) => {
                proof {
                    lemma_first_equal_from(folded_names(before), lower_of(name@), 0);
                }
                let total = items[j].quantity.saturating_add(quantity);
                let reply = updated(items, j, total);
                return Some(reply);
            },
            None => {
                let mut reply = String::from_str("Added *");
                reply.append(name.as_str());
                if quantity > 1 {
                    reply.append("* x ");
                    reply.append(unsigned_text(quantity as u64).as_str());
                } else {
                    reply.append("*");
                }
                let ghost name_view = name@;
                items.push(EquipmentItem { name, quantity });
                assert(item_views(items@) =~= before.push((name_view, quantity)));
                return Some(reply);
            },
        }
    }
    if one_of(command, "remove", "delete", "rm") {
        if args.unicode_len() == 0 {
            return Some(String::from_str(REMOVE_USAGE));
        }
        match find_item(items, args) {
            Some(j) => {
                proof {
                    lemma_first_equal_from(folded_names(before), lower_of(args@), 0);
                }
                let ghost old_items = items@;
                let removed = items.remove(j);
                assert(item_views(items@) =~= before.remove(j as int));
                let mut reply = String::from_str("Removed *");
                reply.append(removed.name.as_str());
                reply.append("*");
                return Some(reply);
            },
            None => {
                let mut reply = String::from_str("Item '");
                reply.append(args);
                reply.append("' not found in equipment list");
                return Some(reply);
            },
        }
    }
    if one_of(command, "list", "ls", "equipment") {
        if items.len() == 0 {
            return Some(String::from_str(EMPTY_LIST));
        }
        return Some(list_reply(items));
    }
    if one_of(command, "clear", "reset", "reset") {
        items.clear();
        assert(item_views(items@) =~= Seq::<(Seq<char>, u32)>::empty());
        return Some(String::from_str(CLEARED));
    }
    if one_of(command, "update", "set", "set") {
        if args.unicode_len() == 0 {
            return Some(String::from_str(UPDATE_USAGE));
        }
        let (name, quantity) = parse_item_with_quantity(args);
        match find_item(items, name.as_str()) {
            Some(j) => {
                proof {
                    lemma_first_equal_from(folded_names(before), lower_of(name@), 0);
                }
                let reply = updated(items, j, quantity);
                return Some(reply);
            },
            None => {
                let mut reply = String::from_str("Item '");
                reply.append(name.as_str());
                reply.append("' not found. Use !add to add new items.");
                return Some(reply);
            },
        }
    }
    None
}

} // verus!
