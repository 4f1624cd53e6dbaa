//! The basic settings of a project: its client, its tags, its currency and its dates.

use crate::date::date_text;
use crate::date::format_day;
use crate::date::parse_day;
use crate::date::parsed_day;
use crate::ids::id_text;
use crate::ids::id_to_text;
use crate::ids::parse_id;
use crate::ids::parsed_id;
use crate::lists::contains_text;
use crate::lists::other_text;
use crate::lists::remove_text;
use crate::lists::views;
use crate::new_project::form::copy_texts;
use crate::new_project::form::ProjectForm;
use crate::text::chars_of;
use crate::text::index_from;
use crate::text::lowercase;
use crate::text::text_of;
use crate::text::to_lowercase;
use crate::text::trim;
use crate::text::trim_end;
use crate::text::trim_start;
use crate::text::trimmed;
use crate::text::white_space;
use crate::invoices::defaults_form::is_short;
use crate::invoices::defaults_form::short_enough;
use vstd::prelude::*;

verus! {

/// The most tags that a project has.
pub const TAG_LIMIT: usize = 50;

/// What tags are compared by: they are trimmed and in lower case.
pub open spec fn tag_keys(tags: Seq<Seq<char>>) -> Seq<Seq<char>> {
    tags.map_values(|tag: Seq<char>| lowercase(trimmed(tag)))
}

/// The tags after `tag`, which is trimmed, has been entered, or why it is not taken. A blank
/// one and one whose key is among those of the tags add nothing.
pub open spec fn with_keyed_tag(
    tags: Seq<Seq<char>>,
    keys: Seq<Seq<char>>,
    tag: Seq<char>,
    key: Seq<char>,
) -> Result<Seq<Seq<char>>, Seq<char>> {
    if tag.len() == 0 {
        Ok(tags)
    } else if !is_short(tag, 50) {
        Err("Each tag must contain at most 50 characters and no null character."@)
    } else if keys.contains(key) {
        Ok(tags)
    } else if tags.len() >= 50 {
        Err("A project can have at most 50 tags. Remove a tag before adding another."@)
    } else {
        Ok(tags.push(tag))
    }
}

/// The tags after one more has been entered, or why it is not taken. A blank one and one
/// that is there already, in whatever case, add nothing.
pub open spec fn with_tag(tags: Seq<Seq<char>>, entered: Seq<char>) -> Result<
    Seq<Seq<char>>,
    Seq<char>,
> {
    let tag = trimmed(entered);
    with_keyed_tag(tags, tag_keys(tags), tag, lowercase(tag))
}

/// The tags after what stands in `input` from `from` on has been entered, parted by
/// commas; the first refusal refuses all.
pub open spec fn with_tags(tags: Seq<Seq<char>>, input: Seq<char>, from: int) -> Result<
    Seq<Seq<char>>,
    Seq<char>,
>
    decreases input.len() - from,
{
    let comma = index_from(input, ',', from);
    if !(0 <= from <= comma <= input.len()) {
        Ok(tags)
    } else {
        match with_tag(tags, input.subrange(from, comma)) {
            Err(message) => Err(message),
            Ok(more) => if comma == input.len() {
                Ok(more)
            } else {
                with_tags(more, input, comma + 1)
            },
        }
    }
}

fn keys_of_tags(tags: &Vec<String>) -> (keys: Vec<String>)
    ensures
        views(keys@) == tag_keys(views(tags@)),
{
    let mut keys: Vec<String> = Vec::new();
    let mut i: usize = 0;
    while i < tags.len()
        invariant
            i <= tags.len(),
            keys.len() == i,
            forall|k: int|
                0 <= k < i ==> (#[trigger] keys@[k])@ == lowercase(trimmed(tags@[k]@)),
        decreases tags.len() - i,
    {
        keys.push(to_lowercase(trim(tags[i].as_str()).as_str()));
        i += 1;
    }
    proof {
        assert(views(keys@) =~= tag_keys(views(tags@)));
    }
    keys
}

/// Adds a tag, which is trimmed, by its key and the keys of the tags that are there.
pub fn add_keyed_tag(tags: &mut Vec<String>, keys: &Vec<String>, tag: String, key: &str) -> (added:
    Result<(), &'static str>)
    ensures
        with_keyed_tag(views(old(tags)@), views(keys@), tag@, key@) == (match added {
            Ok(_) => Ok::<Seq<Seq<char>>, Seq<char>>(views(final(tags)@)),
            Err(message) => Err(message@),
        }),
        added is Err ==> final(tags)@ == old(tags)@,
{
    if tag.as_str().is_empty() {
        return Ok(());
    }
    if !short_enough(tag.as_str(), 50) {
        return Err("Each tag must contain at most 50 characters and no null character.");
    }
    if contains_text(keys, key) {
        return Ok(());
    }
    if tags.len() >= TAG_LIMIT {
        return Err("A project can have at most 50 tags. Remove a tag before adding another.");
    }
    let ghost before = tags@;
    let ghost last = tag@;
    tags.push(tag);
    proof {
        assert(views(tags@) =~= views(before).push(last));
    }
    Ok(())
}

fn add_tag(tags: &mut Vec<String>, entered: &str) -> (added: Result<(), &'static str>)
    ensures
        with_tag(views(old(tags)@), entered@) == (match added {
            Ok(_) => Ok::<Seq<Seq<char>>, Seq<char>>(views(final(tags)@)),
            Err(message) => Err(message@),
        }),
{
    let tag = trim(entered);
    let key = to_lowercase(tag.as_str());
    let keys = keys_of_tags(tags);
    add_keyed_tag(tags, &keys, tag, key.as_str())
}

/// Adds the tags of an input, parted by commas: trimmed, without those that are there
/// already in any case, and none of them where one is refused.
pub fn add_tags(current: &Vec<String>, input: &str) -> (tags: Result<Vec<String>, &'static str>)
    ensures
        match tags {
            Ok(tags) => with_tags(views(current@), input@, 0) == Ok::<Seq<Seq<char>>, Seq<char>>(
                views(tags@),
            ),
            Err(message) => with_tags(views(current@), input@, 0) == Err::<
                Seq<Seq<char>>,
                Seq<char>,
            >(message@),
        },
{
    let chars = chars_of(input);
    let mut tags = copy_texts(current);
    let mut from: usize = 0;
    loop
        invariant
            from <= chars.len(),
            chars@ == input@,
            with_tags(views(tags@), input@, from as int) == with_tags(views(current@), input@, 0),
        decreases chars.len() - from,
    {
        let mut comma: usize = from;
        while comma < chars.len() && chars[comma] != ','
            invariant
                from <= comma <= chars.len(),
                index_from(chars@, ',', comma as int) == index_from(chars@, ',', from as int),
            decreases chars.len() - comma,
        {
            comma += 1;
        }
        let entered = text_of(&chars, from, comma);
        let ghost before = views(tags@);
        let result = add_tag(&mut tags, entered.as_str());
        proof {
            assert(with_tags(before, input@, from as int) == match with_tag(before, entered@) {
                Err(message) => Err(message),
                Ok(more) => if comma == input@.len() {
                    Ok(more)
                } else {
                    with_tags(more, input@, comma + 1)
                },
            });
        }
        if let Err(message) = result {
            return Err(message);
        }
        if comma == chars.len() {
            return Ok(tags);
        }
        from = comma + 1;
    }
}

/// Entering tags keeps those that are there, as they are spelled and in their order.
pub proof fn tags_are_kept(tags: Seq<Seq<char>>, input: Seq<char>, from: int)
    requires
        with_tags(tags, input, from) is Ok,
    ensures
        with_tags(tags, input, from)->Ok_0.len() >= tags.len(),
        with_tags(tags, input, from)->Ok_0.take(tags.len() as int) == tags,
    decreases input.len() - from,
{
    let comma = index_from(input, ',', from);
    let result = with_tags(tags, input, from)->Ok_0;
    if 0 <= from <= comma <= input.len() {
        let more = with_tag(tags, input.subrange(from, comma))->Ok_0;
        assert(more.take(tags.len() as int) =~= tags);
        if comma != input.len() {
            tags_are_kept(more, input, comma + 1);
            assert(result.take(tags.len() as int) =~= result.take(more.len() as int).take(
                tags.len() as int,
            ));
        }
    } else {
        assert(result.take(tags.len() as int) =~= tags);
    }
}

/// A project never gets more than fifty tags by entering some.
pub proof fn tags_stay_few(tags: Seq<Seq<char>>, input: Seq<char>, from: int)
    requires
        tags.len() <= 50,
        with_tags(tags, input, from) is Ok,
    ensures
        with_tags(tags, input, from)->Ok_0.len() <= 50,
    decreases input.len() - from,
{
    let comma = index_from(input, ',', from);
    if 0 <= from <= comma <= input.len() && comma != input.len() {
        let more = with_tag(tags, input.subrange(from, comma))->Ok_0;
        tags_stay_few(more, input, comma + 1);
    }
}

/// Whether no two of the tags from `from` on, nor one of them and one before, are alike but for
/// case and white space around them.
pub open spec fn tags_differ(tags: Seq<Seq<char>>, from: int) -> bool {
    forall|i: int, k: int|
        0 <= i < k < tags.len() && from <= k ==> #[trigger] tag_keys(tags)[i]
            != #[trigger] tag_keys(tags)[k]
}

proof fn keys_of_more(tags: Seq<Seq<char>>, tag: Seq<char>)
    ensures
        tag_keys(tags.push(tag)) == tag_keys(tags).push(lowercase(trimmed(tag))),
{
    assert(tag_keys(tags.push(tag)) =~= tag_keys(tags).push(lowercase(trimmed(tag))));
}

proof fn trimming_again(s: Seq<char>)
    ensures
        trimmed(trimmed(s)) == trimmed(s),
{
    start_trimming_again(s);
    let start = trim_start(s);
    end_trimming_again(start);
    start_of_trimmed(start);
}

proof fn start_trimming_again(s: Seq<char>)
    ensures
        trim_start(s).len() > 0 ==> !white_space(trim_start(s).first()),
    decreases s.len(),
{
    if s.len() > 0 && white_space(s.first()) {
        start_trimming_again(s.drop_first());
    }
}

proof fn end_trimming_again(s: Seq<char>)
    ensures
        trim_end(trim_end(s)) == trim_end(s),
    decreases s.len(),
{
    if s.len() > 0 && white_space(s.last()) {
        end_trimming_again(s.drop_last());
    }
}

proof fn start_of_trimmed(s: Seq<char>)
    requires
        s.len() > 0 ==> !white_space(s.first()),
    ensures
        trim_start(trim_end(s)) == trim_end(s),
    decreases s.len(),
{
    if s.len() > 1 && white_space(s.last()) {
        assert(s.drop_last().first() == s.first());
        start_of_trimmed(s.drop_last());
    }
}

/// No tag that was entered repeats another: not one that was there, nor one entered with it,
/// in whatever case.
pub proof fn entered_tags_differ(tags: Seq<Seq<char>>, input: Seq<char>, from: int, since: int)
    requires
        with_tags(tags, input, from) is Ok,
        0 <= since <= tags.len(),
        tags_differ(tags, since),
    ensures
        tags_differ(with_tags(tags, input, from)->Ok_0, since),
    decreases input.len() - from,
{
    let comma = index_from(input, ',', from);
    if 0 <= from <= comma <= input.len() {
        let tag = trimmed(input.subrange(from, comma));
        let more = with_tag(tags, input.subrange(from, comma))->Ok_0;
        trimming_again(input.subrange(from, comma));
        if more != tags {
            keys_of_more(tags, tag);
            assert forall|i: int, k: int|
                0 <= i < k < more.len() && since <= k implies #[trigger] tag_keys(more)[i]
                != #[trigger] tag_keys(more)[k] by {
                assert(tag_keys(tags).contains(tag_keys(tags)[i]));
            }
        }
        if comma != input.len() {
            entered_tags_differ(more, input, comma + 1, since);
        }
    }
}

/// Whether every tag in `input` from `from` on is blank or among `tags` already.
spec fn all_there(tags: Seq<Seq<char>>, input: Seq<char>, from: int) -> bool
    decreases input.len() - from,
{
    let comma = index_from(input, ',', from);
    if !(0 <= from <= comma <= input.len()) {
        true
    } else {
        let tag = trimmed(input.subrange(from, comma));
        &&& tag.len() == 0 || (is_short(tag, 50) && tag_keys(tags).contains(lowercase(tag)))
        &&& comma != input.len() ==> all_there(tags, input, comma + 1)
    }
}

/// Once entered, all tags of an input are there.
proof fn entered_tags_are_there(tags: Seq<Seq<char>>, input: Seq<char>, from: int)
    requires
        with_tags(tags, input, from) is Ok,
    ensures
        all_there(with_tags(tags, input, from)->Ok_0, input, from),
    decreases input.len() - from,
{
    let comma = index_from(input, ',', from);
    let result = with_tags(tags, input, from)->Ok_0;
    if 0 <= from <= comma <= input.len() {
        let entered = input.subrange(from, comma);
        let tag = trimmed(entered);
        let more = with_tag(tags, entered)->Ok_0;
        trimming_again(entered);
        if tag.len() > 0 {
            let key = lowercase(tag);
            keys_of_more(tags, tag);
            assert(tag_keys(more).contains(key)) by {
                if more != tags {
                    assert(tag_keys(more)[tags.len() as int] == key);
                }
            }
            if comma != input.len() {
                tags_are_kept(more, input, comma + 1);
                let i = choose|i: int| 0 <= i < more.len() && #[trigger] tag_keys(more)[i] == key;
                assert(result.take(more.len() as int)[i] == more[i]);
                assert(tag_keys(result)[i] == key);
            }
        }
        if comma != input.len() {
            entered_tags_are_there(more, input, comma + 1);
        }
    }
}

proof fn tags_that_are_there_add_nothing(tags: Seq<Seq<char>>, input: Seq<char>, from: int)
    requires
        all_there(tags, input, from),
    ensures
        with_tags(tags, input, from) == Ok::<Seq<Seq<char>>, Seq<char>>(tags),
    decreases input.len() - from,
{
    let comma = index_from(input, ',', from);
    if 0 <= from <= comma < input.len() {
        tags_that_are_there_add_nothing(tags, input, comma + 1);
    }
}

/// Entering the same tags again changes nothing.
pub proof fn entering_again_adds_nothing(tags: Seq<Seq<char>>, input: Seq<char>, from: int)
    requires
        with_tags(tags, input, from) is Ok,
    ensures
        with_tags(with_tags(tags, input, from)->Ok_0, input, from) == with_tags(tags, input, from),
{
    entered_tags_are_there(tags, input, from);
    tags_that_are_there_add_nothing(with_tags(tags, input, from)->Ok_0, input, from);
}

/// A client that a project can be for.
#[derive(Debug)]
pub struct CreationClient {
    pub id: u128,
    pub name: String,
    pub currency: String,
    pub active: bool,
}

impl Clone for CreationClient {
    fn clone(&self) -> (copy: Self)
        ensures
            copy == *self,
    {
        CreationClient {
            id: self.id,
            name: self.name.clone(),
            currency: self.currency.clone(),
            active: self.active,
        }
    }
}

/// Whether the client at `i` is the first with an identity.
pub open spec fn is_client(clients: Seq<CreationClient>, id: u128, i: int) -> bool {
    &&& 0 <= i < clients.len()
    &&& clients[i].id == id
    &&& forall|k: int| 0 <= k < i ==> (#[trigger] clients[k]).id != id
}

/// Whether no client has an identity.
pub open spec fn no_client(clients: Seq<CreationClient>, id: u128) -> bool {
    forall|k: int| 0 <= k < clients.len() ==> (#[trigger] clients[k]).id != id
}

/// There is one first client with an identity.
pub proof fn one_client(clients: Seq<CreationClient>, id: u128, i: int)
    requires
        is_client(clients, id, i),
    ensures
        !no_client(clients, id),
        forall|k: int| #[trigger] is_client(clients, id, k) ==> k == i,
{
    assert(clients[i].id == id);
    assert forall|k: int| #[trigger] is_client(clients, id, k) implies k == i by {
        if k < i {
            assert(clients[k].id != id);
        } else if i < k {
            assert(clients[i].id != id);
        }
    }
}

/// The first client with an identity.
pub fn find_client(clients: &Vec<CreationClient>, id: u128) -> (found: Option<usize>)
    ensures
        match found {
            Some(i) => is_client(clients@, id, i as int),
            None => no_client(clients@, id),
        },
{
    let mut i: usize = 0;
    while i < clients.len()
        invariant
            i <= clients.len(),
            forall|k: int| 0 <= k < i ==> (#[trigger] clients@[k]).id != id,
        decreases clients.len() - i,
    {
        if clients[i].id == id {
            return Some(i);
        }
        i += 1;
    }
    None
}

/// The clients to offer: those that were found, after the selected one from the catalog
/// where it is not among them.
pub fn client_choices(
    found: &Vec<CreationClient>,
    catalog: &Vec<CreationClient>,
    selected: Option<u128>,
) -> (choices: Vec<CreationClient>)
    ensures
        match selected {
            None => choices@ == found@,
            Some(id) => {
                &&& !no_client(found@, id) || no_client(catalog@, id) ==> choices@ == found@
                &&& forall|i: int|
                    no_client(found@, id) && #[trigger] is_client(catalog@, id, i) ==> choices@
                        == seq![catalog@[i]] + found@
            },
        },
{
    let mut choices: Vec<CreationClient> = Vec::new();
    let ghost mut at: int = -1;
    if let Some(id) = selected {
        if find_client(found, id).is_none() {
            if let Some(i) = find_client(catalog, id) {
                choices.push(catalog[i].clone());
                proof {
                    at = i as int;
                }
            }
        }
    }
    let ghost first = choices@;
    let mut k: usize = 0;
    while k < found.len()
        invariant
            k <= found.len(),
            choices@ == first + found@.take(k as int),
        decreases found.len() - k,
    {
        proof {
            assert(found@.take(k + 1) =~= found@.take(k as int).push(found@[k as int]));
        }
        choices.push(found[k].clone());
        k += 1;
    }
    proof {
        assert(found@.take(found.len() as int) =~= found@);
        assert(choices@ =~= first + found@);
        if let Some(id) = selected {
            if at >= 0 {
                assert(first =~= seq![catalog@[at]]);
                one_client(catalog@, id, at);
            } else {
                assert(choices@ =~= found@);
            }
        } else {
            assert(choices@ =~= found@);
        }
    }
    choices
}

/// The currency that a project takes from its client.
pub fn inherited_currency(client: Option<&CreationClient>) -> (label: String)
    ensures
        label@ == (match client {
            Some(client) => "Client default ("@ + client.currency@ + ")"@,
            None => "Client default (select a client)"@,
        }),
{
    match client {
        Some(client) => {
            let mut label = "Client default (".to_owned();
            label.append(client.currency.as_str());
            label.append(")");
            label
        },
        None => "Client default (select a client)".to_owned(),
    }
}

/// A choice of a client.
#[derive(Debug)]
pub struct Choice {
    pub value: String,
    pub label: String,
    pub disabled: bool,
}

/// How a client is named among the choices.
pub open spec fn client_label(client: CreationClient) -> Seq<char> {
    if client.active {
        client.name@
    } else {
        client.name@ + " (archived)"@
    }
}

/// Whether a choice stands for a client.
pub open spec fn offers(choice: Choice, client: CreationClient) -> bool {
    &&& choice.value@ == id_text(client.id)
    &&& choice.label@ == client_label(client)
    &&& choice.disabled == !client.active
}

/// The choice of a client: an archived one is marked and cannot be chosen.
pub fn client_choice(client: &CreationClient) -> (choice: Choice)
    ensures
        offers(choice, *client),
{
    let mut label = client.name.clone();
    if !client.active {
        label.append(" (archived)");
    }
    Choice { value: id_to_text(client.id), label, disabled: !client.active }
}

/// The choice that stands for a selected client that was not found.
pub fn missing_choice(selected: u128) -> (choice: Choice)
    ensures
        choice.value@ == id_text(selected),
        choice.label@ == "Previously selected client — search to verify"@,
        choice.disabled,
{
    Choice {
        value: id_to_text(selected),
        label: "Previously selected client — search to verify".to_owned(),
        disabled: true,
    }
}

/// The choices of a client: none, the selected one where it was not found, and those that
/// were.
pub fn client_menu(choices: &Vec<CreationClient>, selected: Option<u128>) -> (menu: Vec<Choice>)
    ensures
        menu.len() >= 1,
        menu@[0].value@ == Seq::<char>::empty(),
        menu@[0].label@ == "Select a client…"@,
        !menu@[0].disabled,
        ({
            let missing = selected is Some && no_client(choices@, selected->0);
            let start: int = if missing {
                2
            } else {
                1
            };
            &&& menu.len() == start + choices.len()
            &&& missing ==> menu@[1].value@ == id_text(selected->0) && menu@[1].label@
                == "Previously selected client — search to verify"@ && menu@[1].disabled
            &&& forall|i: int|
                start <= i < menu.len() ==> offers(#[trigger] menu@[i], choices@[i - start])
        }),
{
    let mut menu: Vec<Choice> = Vec::new();
    menu.push(
        Choice { value: String::new(), label: "Select a client…".to_owned(), disabled: false },
    );
    if let Some(id) = selected {
        match find_client(choices, id) {
            None => {
                menu.push(missing_choice(id));
            },
            Some(i) => {
                proof {
                    one_client(choices@, id, i as int);
                }
            },
        }
    }
    let ghost first = menu@;
    let mut i: usize = 0;
    while i < choices.len()
        invariant
            i <= choices.len(),
            menu.len() == first.len() + i,
            forall|k: int| 0 <= k < first.len() ==> menu@[k] == first[k],
            forall|k: int|
                first.len() <= k < menu.len() ==> offers(
                    #[trigger] menu@[k],
                    choices@[k - first.len()],
                ),
        decreases choices.len() - i,
    {
        menu.push(client_choice(&choices[i]));
        i += 1;
    }
    proof {
        assert(menu@[0] == first[0]);
        assert(first.len() == 2 ==> menu@[1] == first[1]);
    }
    menu
}

/// Whether the selected client cannot be chosen any more.
pub fn unavailable_client(choices: &Vec<CreationClient>, selected: Option<u128>) -> (unavailable:
    bool)
    ensures
        match selected {
            None => !unavailable,
            Some(id) => {
                &&& no_client(choices@, id) ==> unavailable
                &&& forall|i: int| #[trigger]
                    is_client(choices@, id, i) ==> unavailable == !choices@[i].active
            },
        },
{
    match selected {
        None => false,
        Some(id) => match find_client(choices, id) {
            None => true,
            Some(i) => {
                proof {
                    one_client(choices@, id, i as int);
                }
                !choices[i].active
            },
        },
    }
}

/// The currencies to choose from, each with its label: the one of a project that exists,
/// or what the client gives and those that are known.
pub fn currency_options(
    editing: bool,
    current: &Option<String>,
    inherited: String,
    currencies: &Vec<String>,
) -> (options: Vec<(String, String)>)
    ensures
        editing && current is None ==> options.len() == 0,
        editing && current is Some ==> options.len() == 1 && options@[0].0@ == current->0@
            && options@[0].1@ == current->0@,
        !editing ==> {
            &&& options.len() == currencies.len() + 1
            &&& options@[0].0@ == Seq::<char>::empty()
            &&& options@[0].1@ == inherited@
            &&& forall|i: int|
                1 <= i < options.len() ==> (#[trigger] options@[i]).0@ == currencies@[i - 1]@
                    && options@[i].1@ == currencies@[i - 1]@
        },
{
    let mut options: Vec<(String, String)> = Vec::new();
    if editing {
        if let Some(currency) = current {
            options.push((currency.clone(), currency.clone()));
        }
        return options;
    }
    options.push((String::new(), inherited));
    let mut i: usize = 0;
    while i < currencies.len()
        invariant
            i <= currencies.len(),
            options.len() == i + 1,
            options@[0].0@ == Seq::<char>::empty(),
            options@[0].1@ == inherited@,
            forall|k: int|
                1 <= k < options.len() ==> (#[trigger] options@[k]).0@ == currencies@[k - 1]@
                    && options@[k].1@ == currencies@[k - 1]@,
        decreases currencies.len() - i,
    {
        options.push((currencies[i].clone(), currencies[i].clone()));
        i += 1;
    }
    options
}

/// Takes what was typed into the tags; what is refused stays typed.
pub fn commit_tags(tags: &mut Vec<String>, input: &mut String) -> (error: Option<&'static str>)
    ensures
        match with_tags(views(old(tags)@), old(input)@, 0) {
            Ok(added) => error is None && views(final(tags)@) == added && final(input)@.len() == 0,
            Err(message) => error is Some && error->0@ == message && *final(tags) == *old(tags)
                && *final(input) == *old(input),
        },
{
    match add_tags(tags, input.as_str()) {
        Ok(added) => {
            *tags = added;
            *input = String::new();
            None
        },
        Err(message) => Some(message),
    }
}

/// Removes a tag, wherever it is spelled exactly so.
pub fn remove_tag(tags: &mut Vec<String>, tag: &str)
    ensures
        views(final(tags)@) == views(old(tags)@).filter(other_text(tag@)),
{
    remove_text(tags, tag);
}

/// Removes the last tag when an empty field is erased.
pub fn remove_last_tag(tags: &mut Vec<String>, input: &str)
    ensures
        final(tags)@ == (if input@.len() == 0 && old(tags).len() > 0 {
            old(tags)@.drop_last()
        } else {
            old(tags)@
        }),
{
    if input.is_empty() {
        let _ = tags.pop();
    }
}

/// The dialog in which a client is created.
#[derive(Debug)]
pub struct NewClient {
    pub name: String,
    pub currency: String,
    pub rate: String,
    pub busy: bool,
    pub error: Option<String>,
}

impl NewClient {
    /// Opens the dialog: what was typed before is gone, the currency stays.
    pub fn open(&mut self)
        ensures
            final(self).name@.len() == 0,
            final(self).rate@.len() == 0,
            final(self).error is None,
            final(self).currency == old(self).currency,
            final(self).busy == old(self).busy,
    {
        self.name = String::new();
        self.rate = String::new();
        self.error = None;
    }

    /// Whether a client can be created: it has a name, and none is being created.
    pub fn can_submit(&self) -> (can_submit: bool)
        ensures
            can_submit == (!self.busy && trimmed(self.name@).len() > 0),
    {
        !self.busy && !trim(self.name.as_str()).as_str().is_empty()
    }

    /// Begins to create the client, unless one is being created.
    pub fn submit(&mut self) -> (begun: bool)
        ensures
            begun == !old(self).busy,
            !begun ==> *final(self) == *old(self),
            begun ==> *final(self) == (NewClient { busy: true, error: None, ..*old(self) }),
    {
        if self.busy {
            return false;
        }
        self.busy = true;
        self.error = None;
        true
    }

    /// Takes whether the client was created: it is the project's then, and can be chosen.
    pub fn created(
        &mut self,
        result: Result<CreationClient, String>,
        selected: &mut Option<u128>,
        clients: &mut Vec<CreationClient>,
    )
        ensures
            match result {
                Ok(client) => {
                    &&& *final(self) == (NewClient { busy: false, ..*old(self) })
                    &&& *final(selected) == Some(client.id)
                    &&& final(clients)@ == old(clients)@.push(client)
                },
                Err(message) => {
                    &&& *final(self) == (NewClient {
                        busy: false,
                        error: Some(message),
                        ..*old(self)
                    })
                    &&& *final(selected) == *old(selected)
                    &&& final(clients)@ == old(clients)@
                },
            },
    {
        self.busy = false;
        match result {
            Ok(client) => {
                *selected = Some(client.id);
                clients.push(client);
            },
            Err(message) => {
                self.error = Some(message);
            },
        }
    }
}

/// A date in its field: the day where it is one, what was typed otherwise, and the
/// placeholder where nothing was.
pub fn shown_date(value: &str, placeholder: &str) -> (shown: String)
    ensures
        shown@ == (match parsed_day(value@) {
            Some(day) => date_text(day, "%d %b %Y"@),
            None => if value@.len() == 0 {
                placeholder@
            } else {
                value@
            },
        }),
{
    match parse_day(value) {
        Some(day) => format_day(day, "%d %b %Y"),
        None => if value.is_empty() {
            placeholder.to_owned()
        } else {
            value.to_owned()
        },
    }
}

/// A catalog that knows the client with an identity, where it was found.
pub open spec fn knowing(
    catalog: Seq<CreationClient>,
    found: Seq<CreationClient>,
    id: u128,
    known: Seq<CreationClient>,
) -> bool {
    &&& no_client(found, id) || !no_client(catalog, id) ==> known == catalog
    &&& forall|i: int|
        no_client(catalog, id) && #[trigger] is_client(found, id, i) ==> known == catalog.push(
            found[i],
        )
}

/// Picks the client of a project by its identity, and remembers it where it was found; what
/// is no identity picks none.
pub fn pick_client(
    form: &mut ProjectForm,
    catalog: &mut Vec<CreationClient>,
    found: &Vec<CreationClient>,
    value: &str,
)
    ensures
        *final(form) == (ProjectForm { client_id: parsed_id(value@), ..*old(form) }),
        match parsed_id(value@) {
            None => final(catalog)@ == old(catalog)@,
            Some(id) => knowing(old(catalog)@, found@, id, final(catalog)@),
        },
{
    let picked = parse_id(value);
    form.client_id = picked;
    if let Some(id) = picked {
        match find_client(found, id) {
            Some(i) => {
                proof {
                    one_client(found@, id, i as int);
                }
                match find_client(catalog, id) {
                    None => {
                        catalog.push(found[i].clone());
                    },
                    Some(k) => {
                        proof {
                            one_client(catalog@, id, k as int);
                        }
                    },
                }
            },
            None => {
                proof {
                    assert forall|i: int| #[trigger] is_client(found@, id, i) implies false by {
                        assert(found@[i].id == id);
                    }
                }
            },
        }
    }
}

/// Picks the currency of a project; none is that of its client.
pub fn pick_currency(form: &mut ProjectForm, value: String)
    ensures
        *final(form) == (ProjectForm {
            currency: if value@.len() == 0 {
                None
            } else {
                Some(value)
            },
            ..*old(form)
        }),
{
    form.currency = if value.as_str().is_empty() {
        None
    } else {
        Some(value)
    };
}

/// What is said below the results of a search.
#[derive(Clone, Copy, PartialEq, Eq, Structural, Debug)]
pub enum SearchNote {
    Nothing,
    Failed,
    NoMatches,
    /// There are more matches than are shown.
    More,
}

/// What is said below the results of a search: `found` is how many there were, if it was
/// answered.
pub fn search_note(pending: bool, failed: bool, found: Option<usize>, more: bool) -> (note:
    SearchNote)
    ensures
        note == (if pending {
            SearchNote::Nothing
        } else if failed {
            SearchNote::Failed
        } else if found == Some(0usize) {
            SearchNote::NoMatches
        } else if found is Some && more {
            SearchNote::More
        } else {
            SearchNote::Nothing
        }),
{
    if pending {
        SearchNote::Nothing
    } else if failed {
        SearchNote::Failed
    } else {
        match found {
            Some(count) => if count == 0 {
                SearchNote::NoMatches
            } else if more {
                SearchNote::More
            } else {
                SearchNote::Nothing
            },
            None => SearchNote::Nothing,
        }
    }
}

} // verus!
