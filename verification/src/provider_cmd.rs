//! Choosing a provider from the command line, and putting out how it stands.
//!
//! A key is never an argument, where a shell would record it and others could
//! see it, and is never put out again.

use vstd::prelude::*;

use crate::proto::{Request, RequestView};
use crate::provider::{
    catalog, entries, entry, info_views, lookup, optional_text, ProviderInfo, ProviderInfoView,
    ProviderStatus,
};
use crate::secret::SecretString;
use crate::text::{
    decimal, decimal_text, decimals_read_back, holds, join, joined, lemma_holds_itself,
    lemma_parts_hold, numeral, pad_right, parse_number, push_left_aligned, quote,
    quoted, same, trim, trimmed, views,
};

verus! {

/// The ids of all providers, with commas between.
pub open spec fn known_ids() -> Seq<char> {
    join(entries().map_values(|p: ProviderInfoView| p.id), ", "@)
}

fn ids() -> (text: String)
    ensures
        text@ == known_ids(),
{
    let all = catalog();
    let ghost meant = entries().map_values(|p: ProviderInfoView| p.id);
    let mut names: Vec<String> = Vec::new();
    let mut i: usize = 0;
    while i < all.len()
        invariant
            i <= all@.len(),
            info_views(all@) == entries(),
            meant == entries().map_values(|p: ProviderInfoView| p.id),
            views(names@) == meant.take(i as int),
        decreases all@.len() - i,
    {
        let ghost was = views(names@);
        names.push(all[i].id.clone());
        assert(info_views(all@)[i as int] == all@[i as int]@);
        assert(views(names@) =~= was.push(all@[i as int].id@));
        i = i + 1;
        assert(views(names@) =~= meant.take(i as int));
    }
    assert(info_views(all@).len() == all@.len());
    assert(views(names@) =~= meant);
    joined(&names, ", ")
}

/// Which provider a command names.
#[derive(Debug, Clone)]
pub enum Choice {
    Entry(ProviderInfo),
    /// None; the user is asked.
    Menu,
    Refused(String),
}

/// Which provider a command names: the one with the id, or the one the user
/// picks from the menu where there is a terminal to ask at.
pub fn named_provider(id: Option<&str>, terminal: bool) -> (choice: Choice)
    ensures
        match id {
            Some(id) => match entry(id@) {
                Some(info) => choice matches Choice::Entry(p) && p@ == info,
                None => choice matches Choice::Refused(message) && message@ == "unknown provider "@
                    + quote(id@) + " — available: "@ + known_ids(),
            },
            None => if terminal {
                choice is Menu
            } else {
                choice matches Choice::Refused(message) && message@
                    == "no provider given and stdin is not a terminal — pass one of: "@
                    + known_ids()
            },
        },
{
    match id {
        Some(id) => match lookup(id) {
            Some(info) => Choice::Entry(info),
            None => {
                let mut message = "unknown provider ".to_owned();
                message.append(quoted(id).as_str());
                message.append(" — available: ");
                message.append(ids().as_str());
                Choice::Refused(message)
            },
        },
        None => if terminal {
            Choice::Menu
        } else {
            Choice::Refused(
                "no provider given and stdin is not a terminal — pass one of: ".to_owned().concat(
                    ids().as_str(),
                ),
            )
        },
    }
}

/// Where to get a key.
pub open spec fn key_line(p: ProviderInfoView, indent: Seq<char>) -> Seq<char> {
    match p.signup_url {
        Some(url) => indent + "Needs a free API key: "@ + url,
        None => indent + "No API key needed."@,
    }
}

fn write_key_line(p: &ProviderInfo, indent: &str) -> (line: String)
    ensures
        line@ == key_line(p@, indent@),
{
    let mut line = indent.to_owned();
    match &p.signup_url {
        Some(url) => {
            line.append("Needs a free API key: ");
            line.append(url.as_str());
        },
        None => {
            line.append("No API key needed.");
        },
    }
    line
}

/// The menu entries for the providers, the first with the number `from`.
pub open spec fn menu_from(infos: Seq<ProviderInfoView>, from: nat) -> Seq<Seq<char>>
    decreases infos.len(),
{
    if infos.len() == 0 {
        seq![]
    } else {
        seq![
            "  "@ + decimal(from) + ") "@ + infos[0].label,
            "     "@ + infos[0].description,
            key_line(infos[0], "     "@),
            ""@,
        ] + menu_from(infos.drop_first(), from + 1)
    }
}

/// The menu.
pub fn menu_lines() -> (lines: Vec<String>)
    ensures
        views(lines@) == seq!["Choose a price data provider:"@, ""@] + menu_from(entries(), 1),
{
    let all = catalog();
    let ghost infos = info_views(all@);
    let mut lines: Vec<String> = Vec::new();
    lines.push("Choose a price data provider:".to_owned());
    lines.push("".to_owned());
    let ghost meant = seq!["Choose a price data provider:"@, ""@] + menu_from(entries(), 1);
    let mut i: usize = 0;
    assert(infos.skip(0) =~= infos);
    assert(views(lines@) =~= seq!["Choose a price data provider:"@, ""@]);
    let len: usize = all.len();
    while i < len
        invariant
            i <= len,
            len == all@.len(),
            infos == info_views(all@),
            views(lines@) + menu_from(infos.skip(i as int), (i + 1) as nat) == meant,
        decreases len - i,
    {
        let ghost was = views(lines@);
        let ghost rest = infos.skip(i as int);
        assert(rest[0] == all@[i as int]@);
        assert(rest.drop_first() =~= infos.skip(i + 1));
        let mut line = "  ".to_owned();
        line.append(decimal_text(i as u64 + 1).as_str());
        line.append(") ");
        line.append(all[i].label.as_str());
        lines.push(line);
        let mut line = "     ".to_owned();
        line.append(all[i].description.as_str());
        lines.push(line);
        lines.push(write_key_line(&all[i], "     "));
        lines.push("".to_owned());
        assert(views(lines@) =~= was + seq![
            "  "@ + decimal((i + 1) as nat) + ") "@ + rest[0].label,
            "     "@ + rest[0].description,
            key_line(rest[0], "     "@),
            ""@,
        ]);
        assert(views(lines@) + menu_from(infos.skip(i + 1), (i + 2) as nat) =~= was + menu_from(
            rest,
            (i + 1) as nat,
        ));
        i = i + 1;
    }
    assert(infos.skip(i as int) =~= seq![]);
    assert(views(lines@) + menu_from(infos.skip(i as int), (i + 1) as nat) =~= views(lines@));
    lines
}

/// What the menu asks.
pub fn menu_prompt() -> (prompt: String)
    ensures
        prompt@ == "Number [1-"@ + decimal(entries().len()) + "]: "@,
{
    let all = catalog();
    assert(info_views(all@).len() == all@.len());
    let mut prompt = "Number [1-".to_owned();
    prompt.append(decimal_text(all.len() as u64).as_str());
    prompt.append("]: ");
    prompt
}

/// The provider that an answer to the menu picks.
pub open spec fn picked_by(line: Seq<char>) -> Result<ProviderInfoView, Seq<char>> {
    match numeral(trim(line)) {
        None => Err("not a number: "@ + quote(trim(line))),
        Some(n) => if n > usize::MAX {
            Err("not a number: "@ + quote(trim(line)))
        } else if n == 0 {
            Err("choice must be 1 or greater"@)
        } else if n <= entries().len() {
            Ok(entries()[n - 1])
        } else {
            Err("no such choice: "@ + decimal(n))
        },
    }
}

/// The provider that an answer to the menu picks.
pub fn pick(line: &str) -> (picked: Result<ProviderInfo, String>)
    ensures
        match (picked, picked_by(line@)) {
            (Ok(p), Ok(info)) => p@ == info,
            (Err(message), Err(text)) => message@ == text,
            _ => false,
        },
{
    let answer = trimmed(line);
    let n: usize = match parse_number(answer.as_str(), usize::MAX as u64) {
        Some(n) => n as usize,
        None => {
            return Err("not a number: ".to_owned().concat(quoted(answer.as_str()).as_str()));
        },
    };
    if n == 0 {
        return Err("choice must be 1 or greater".to_owned());
    }
    let mut all = catalog();
    assert(info_views(all@).len() == all@.len());
    if n <= all.len() {
        assert(info_views(all@)[n - 1] == all@[n - 1]@);
        return Ok(all.remove(n - 1));
    }
    Err("no such choice: ".to_owned().concat(decimal_text(n as u64).as_str()))
}

/// What is put out before a key is asked for; nothing where it is not known
/// where to get one.
pub fn key_notice(info: &ProviderInfo) -> (notice: Option<String>)
    ensures
        optional_text(notice) == match info.signup_url {
            Some(url) => Some(
                "\n"@ + info.label@ + " needs an API key. Get one at:\n  "@ + url@ + "\n"@,
            ),
            None => None,
        },
{
    match &info.signup_url {
        Some(url) => {
            let mut notice = "\n".to_owned();
            notice.append(info.label.as_str());
            notice.append(" needs an API key. Get one at:\n  ");
            notice.append(url.as_str());
            notice.append("\n");
            Some(notice)
        },
        None => None,
    }
}

/// What is asked for a key.
pub fn key_prompt(info: &ProviderInfo) -> (prompt: String)
    ensures
        prompt@ == info.label@ + " API key (input hidden): "@,
{
    info.label.clone().concat(" API key (input hidden): ")
}

/// The request that selects a provider with the key that was entered. One that
/// needs no key goes without.
pub fn build_set_request(info: ProviderInfo, entered: &str) -> (req: Result<Request, String>)
    ensures
        match req {
            Ok(r) => (!info.requires_key || trim(entered@).len() > 0) && r@
                == (RequestView::SetProvider {
                provider: info.id@,
                api_key: if info.requires_key {
                    Some(trim(entered@))
                } else {
                    None
                },
            }),
            Err(message) => info.requires_key && trim(entered@).len() == 0 && message@
                == "no key entered — provider unchanged"@,
        },
{
    if !info.requires_key {
        return Ok(Request::SetProvider { provider: info.id, api_key: None });
    }
    let key = trimmed(entered);
    if key.as_str().unicode_len() == 0 {
        return Err("no key entered — provider unchanged".to_owned());
    }
    Ok(Request::SetProvider { provider: info.id, api_key: Some(SecretString::new(key.as_str())) })
}

/// How a provider stands, in lines.
pub open spec fn status_text(st: ProviderStatus) -> Seq<Seq<char>> {
    match st.selected {
        None => seq![
            match st.unavailable {
                Some(why) => "provider: unavailable — "@ + why@,
                None => "provider: none configured"@,
            },
            ""@,
            "No prices will be fetched until you choose one:"@,
            "  tickerctl provider set"@,
        ],
        Some(p) => seq![
            "provider:  "@ + p.label@,
            "api key:   "@ + if !p.requires_key {
                "not required"@
            } else if st.key_configured {
                "configured"@
            } else {
                "not set"@
            },
            "ready:     "@ + if st.ready {
                "yes"@
            } else {
                "no"@
            },
        ] + if !st.ready && p.requires_key && !st.key_configured {
            seq![""@, "Set the key with: tickerctl provider set "@ + p.id@]
        } else {
            seq![]
        },
    }
}

/// How a provider stands, in lines.
pub fn status_lines(st: &ProviderStatus) -> (lines: Vec<String>)
    ensures
        views(lines@) == status_text(*st),
{
    let mut lines: Vec<String> = Vec::new();
    match &st.selected {
        None => {
            match &st.unavailable {
                Some(why) => {
                    lines.push("provider: unavailable — ".to_owned().concat(why.as_str()));
                },
                None => {
                    lines.push("provider: none configured".to_owned());
                },
            }
            lines.push("".to_owned());
            lines.push("No prices will be fetched until you choose one:".to_owned());
            lines.push("  tickerctl provider set".to_owned());
        },
        Some(p) => {
            lines.push("provider:  ".to_owned().concat(p.label.as_str()));
            let key = if !p.requires_key {
                "not required"
            } else if st.key_configured {
                "configured"
            } else {
                "not set"
            };
            lines.push("api key:   ".to_owned().concat(key));
            let ready = if st.ready {
                "yes"
            } else {
                "no"
            };
            lines.push("ready:     ".to_owned().concat(ready));
            if !st.ready && p.requires_key && !st.key_configured {
                lines.push("".to_owned());
                lines.push(
                    "Set the key with: tickerctl provider set ".to_owned().concat(p.id.as_str()),
                );
            }
        },
    }
    assert(views(lines@) =~= status_text(*st));
    lines
}

/// The id of the selected provider.
pub open spec fn selected_id(st: ProviderStatus) -> Option<Seq<char>> {
    match st.selected {
        Some(p) => Some(p.id@),
        None => None,
    }
}

/// The lines of the providers, the selected one marked.
pub open spec fn listing_of(
    infos: Seq<ProviderInfoView>,
    selected: Option<Seq<char>>,
) -> Seq<Seq<char>>
    decreases infos.len(),
{
    if infos.len() == 0 {
        seq![]
    } else {
        let p = infos.last();
        listing_of(infos.drop_last(), selected) + seq![
            (if selected == Some(p.id) {
                "*"@
            } else {
                " "@
            }) + " "@ + pad_right(p.id, 14) + " "@ + p.label,
            "    "@ + p.description,
            key_line(p, "    "@),
            ""@,
        ]
    }
}

/// The list of providers, in lines.
pub open spec fn list_of(st: ProviderStatus) -> Seq<Seq<char>> {
    listing_of(info_views(st.available@), selected_id(st)) + seq![
        if st.selected is Some {
            "* = currently selected"@
        } else {
            "None selected. Choose one with: tickerctl provider set"@
        },
    ]
}

/// The list of providers, in lines.
pub fn list_lines(st: &ProviderStatus) -> (lines: Vec<String>)
    ensures
        views(lines@) == list_of(*st),
{
    let ghost infos = info_views(st.available@);
    let ghost selected = selected_id(*st);
    let mut lines: Vec<String> = Vec::new();
    let mut i: usize = 0;
    assert(views(lines@) =~= listing_of(infos.take(0), selected));
    while i < st.available.len()
        invariant
            i <= st.available@.len(),
            infos == info_views(st.available@),
            selected == selected_id(*st),
            views(lines@) == listing_of(infos.take(i as int), selected),
        decreases st.available@.len() - i,
    {
        let p = &st.available[i];
        let ghost was = views(lines@);
        assert(infos.take(i + 1).drop_last() =~= infos.take(i as int));
        assert(infos.take(i + 1).last() == p@);
        let chosen = match &st.selected {
            Some(s) => same(s.id.as_str(), p.id.as_str()),
            None => false,
        };
        let mut line = if chosen {
            "*".to_owned()
        } else {
            " ".to_owned()
        };
        line.append(" ");
        push_left_aligned(&mut line, p.id.as_str(), 14);
        line.append(" ");
        line.append(p.label.as_str());
        lines.push(line);
        lines.push("    ".to_owned().concat(p.description.as_str()));
        lines.push(write_key_line(p, "    "));
        lines.push("".to_owned());
        assert(views(lines@) =~= was + seq![
            (if selected == Some(p.id@) {
                "*"@
            } else {
                " "@
            }) + " "@ + pad_right(p.id@, 14) + " "@ + p.label@,
            "    "@ + p.description@,
            key_line(p@, "    "@),
            ""@,
        ]);
        i = i + 1;
    }
    assert(infos.take(i as int) =~= infos);
    let ghost most = views(lines@);
    if st.selected.is_some() {
        lines.push("* = currently selected".to_owned());
    } else {
        lines.push("None selected. Choose one with: tickerctl provider set".to_owned());
    }
    assert(views(lines@) =~= list_of(*st));
    lines
}

/// Whoever answers the menu with the number that stands before a provider picks
/// that provider, whatever white space is around it; any other number picks
/// none.
pub proof fn numbers_pick_what_they_stand_before(n: nat, line: Seq<char>)
    requires
        trim(line) == decimal(n),
        n <= 0xffff,
    ensures
        1 <= n <= entries().len() ==> picked_by(line) == Ok::<ProviderInfoView, Seq<char>>(
            entries()[n - 1],
        ),
        n == 0 || n > entries().len() ==> picked_by(line) is Err,
{
    decimals_read_back(n);
}

/// What is put out of a provider's standing names the provider that is selected,
/// or says that none is and why.
pub proof fn standings_name_the_provider(st: ProviderStatus)
    ensures
        st.selected matches Some(p) ==> holds(status_text(st)[0], p.label@),
        st.selected is None && st.unavailable is Some ==> holds(
            status_text(st)[0],
            st.unavailable->0@,
        ),
{
    broadcast use {lemma_parts_hold, lemma_holds_itself};

}

/// What is set is the provider chosen, with the key that was entered and no
/// white space around it. Where a key is needed, none is no choice; where none
/// is needed, none is sent.
pub proof fn choices_are_sent_with_their_key(
    info: ProviderInfo,
    entered: &str,
    req: Result<Request, String>,
)
    requires
        call_ensures(build_set_request, (info, entered), req),
    ensures
        req is Err <==> info.requires_key && trim(entered@).len() == 0,
        req is Ok ==> (req->Ok_0@ matches RequestView::SetProvider { provider, api_key } && provider
            == info.id@ && (api_key is Some <==> info.requires_key) && (api_key is Some
            ==> api_key->0 == trim(entered@))),
{
}

/// A provider that is named is the one of the catalog with that name. An
/// unknown one is refused under its name, and the menu is for a terminal on
/// which none was named.
pub proof fn names_are_looked_up(id: Option<&str>, terminal: bool, choice: Choice)
    requires
        call_ensures(named_provider, (id, terminal), choice),
    ensures
        choice is Menu <==> id is None && terminal,
        choice matches Choice::Entry(p) ==> id is Some && entry(id->0@) == Some(p@),
        choice matches Choice::Refused(message) ==> holds(message@, known_ids()) && (id is Some
            ==> entry(id->0@) is None && holds(message@, quote(id->0@))),
{
    broadcast use {lemma_parts_hold, lemma_holds_itself};

}

/// The laws on the menu and on the standing hold of what is told.
pub proof fn laws_hold_of_what_is_told(
    line: &str,
    picked: Result<ProviderInfo, String>,
    st: &ProviderStatus,
    lines: Vec<String>,
    info: &ProviderInfo,
    notice: Option<String>,
)
    ensures
        call_ensures(pick, (line,), picked) ==> (picked is Ok <==> picked_by(line@) is Ok) && (
        picked is Ok ==> picked->Ok_0@ == picked_by(line@)->Ok_0),
        call_ensures(status_lines, (st,), lines) ==> views(lines@) == status_text(*st),
        call_ensures(list_lines, (st,), lines) ==> views(lines@) == list_of(*st),
        call_ensures(key_notice, (info,), notice) ==> (notice is Some <==> info.signup_url is Some)
            && (notice is Some ==> holds(notice->0@, info.label@) && holds(
            notice->0@,
            info.signup_url->0@,
        )),
{
    broadcast use {lemma_parts_hold, lemma_holds_itself};

}

} // verus!
