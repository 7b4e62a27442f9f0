use vstd::prelude::*;
use crate::chars::{chars_of, push_chars, push_str, string_from_chars};
use crate::client::same_text;
use crate::object::{insert_sorted, strictly_sorted};
use crate::text::{next_token, strings_view, word_list, word_list_spec, Tokenizer};
use vstd::string::StrSliceExecFns;

verus! {

/// Whether a character is drawn out in a usage line.
pub open spec fn usage_symbol(c: char) -> bool {
    c == '<' || c == '>' || c == '[' || c == ']' || c == '(' || c == ')'
}

/// A usage line with its symbols drawn in white: brackets and parentheses, `||` and `..`.
pub open spec fn colorize_usage(s: Seq<char>) -> Seq<char>
    decreases s.len(),
{
    if s.len() == 0 {
        s
    } else if usage_symbol(s[0]) {
        "|white|"@ + seq![s[0]] + "|-|"@ + colorize_usage(s.drop_first())
    } else if s.len() >= 2 && ((s[0] == '|' && s[1] == '|') || (s[0] == '.' && s[1] == '.')) {
        "|white|"@ + s.take(2) + "|-|"@ + colorize_usage(s.skip(2))
    } else {
        seq![s[0]] + colorize_usage(s.drop_first())
    }
}

proof fn lemma_colorize_step(s: Seq<char>, k: int)
    requires
        0 <= k < s.len(),
    ensures
        colorize_usage(s.skip(k)) == if usage_symbol(s[k]) {
            "|white|"@ + seq![s[k]] + "|-|"@ + colorize_usage(s.skip(k + 1))
        } else if k + 2 <= s.len() && ((s[k] == '|' && s[k + 1] == '|') || (s[k] == '.' && s[k + 1] == '.')) {
            "|white|"@ + s.subrange(k, k + 2) + "|-|"@ + colorize_usage(s.skip(k + 2))
        } else {
            seq![s[k]] + colorize_usage(s.skip(k + 1))
        },
{
    let t = s.skip(k);
    assert(t[0] == s[k]);
    assert(t.drop_first() =~= s.skip(k + 1));
    if t.len() >= 2 {
        assert(t[1] == s[k + 1]);
        assert(t.skip(2) =~= s.skip(k + 2));
        assert(t.take(2) =~= s.subrange(k, k + 2));
    }
}

fn push_usage(out: &mut Vec<char>, usage: &str)
    ensures
        final(out)@ == old(out)@ + colorize_usage(usage@),
{
    let s = chars_of(usage);
    let n = s.len();
    let mut i: usize = 0;
    proof {
        assert(s@.skip(0) == s@);
    }
    while i < n
        invariant
            s@ == usage@,
            n == s.len(),
            i <= n,
            out@ + colorize_usage(s@.skip(i as int)) == old(out)@ + colorize_usage(usage@),
        decreases n - i,
    {
        let c = s[i];
        let ghost before = out@;
        proof {
            lemma_colorize_step(s@, i as int);
        }
        if c == '<' || c == '>' || c == '[' || c == ']' || c == '(' || c == ')' {
            push_str(out, "|white|");
            out.push(c);
            push_str(out, "|-|");
            proof {
                assert(before + ("|white|"@ + seq![c] + "|-|"@ + colorize_usage(s@.skip(i + 1)))
                    =~= out@ + colorize_usage(s@.skip(i + 1)));
            }
            i = i + 1;
        } else if i + 1 < n && ((c == '|' && s[i + 1] == '|') || (c == '.' && s[i + 1] == '.')) {
            push_str(out, "|white|");
            out.push(c);
            out.push(s[i + 1]);
            push_str(out, "|-|");
            proof {
                assert(s@.subrange(i as int, i + 2) =~= seq![c, s@[i + 1]]);
                assert(before + ("|white|"@ + s@.subrange(i as int, i + 2) + "|-|"@ + colorize_usage(s@.skip(i + 2)))
                    =~= out@ + colorize_usage(s@.skip(i + 2)));
            }
            i = i + 2;
        } else {
            out.push(c);
            proof {
                assert(before + (seq![c] + colorize_usage(s@.skip(i + 1))) =~= out@ + colorize_usage(s@.skip(i + 1)));
            }
            i = i + 1;
        }
    }
    proof {
        assert(s@.skip(n as int) =~= Seq::<char>::empty());
        assert(out@ + Seq::<char>::empty() =~= out@);
    }
}

/// Words listed in prose after sorting them, each once.
pub open spec fn listed_sorted(words: Seq<Seq<char>>, text: Seq<char>) -> bool {
    exists|s: Seq<Seq<char>>| strictly_sorted(s) && s.to_set() == words.to_set() && text == word_list_spec(s)
}

/// Lists words in prose, in lexicographic order, each once.
pub fn sorted_word_list(words: Vec<String>) -> (r: String)
    ensures
        listed_sorted(strings_view(words@), r@),
{
    let mut sorted: Vec<String> = Vec::new();
    let mut i: usize = 0;
    while i < words.len()
        invariant
            i <= words.len(),
            strictly_sorted(strings_view(sorted@)),
            strings_view(sorted@).to_set() == strings_view(words@).take(i as int).to_set(),
        decreases words.len() - i,
    {
        insert_sorted(&mut sorted, &words[i]);
        proof {
            assert(strings_view(words@).take(i + 1) == strings_view(words@).take(i as int).push(words@[i as int]@));
            strings_view(words@).take(i as int).lemma_push_to_set_commute(words@[i as int]@);
        }
        i = i + 1;
    }
    assert(strings_view(words@).take(words.len() as int) == strings_view(words@));
    let ghost s = strings_view(sorted@);
    let r = word_list(sorted);
    assert(strictly_sorted(s) && s.to_set() == strings_view(words@).to_set() && r@ == word_list_spec(s));
    r
}

/// Guidance on a command: how it is used, what it does, an example, and guidance on its
/// subcommands.
pub struct Help {
    usage: Option<String>,
    example: Option<String>,
    description: String,
    subhelp: Vec<(String, Help)>,
}

pub open spec fn opt_view(o: Option<String>) -> Option<Seq<char>> {
    match o {
        Some(s) => Some(s@),
        None => None,
    }
}

/// The guidance text of a command.
pub open spec fn help_text(usage: Option<Seq<char>>, description: Seq<char>, example: Option<Seq<char>>,
    topics: Seq<Seq<char>>, text: Seq<char>) -> bool {
    let head = match usage {
        Some(u) => "|white|Usage:|-| "@ + colorize_usage(u) + "\r\n\r\n"@,
        None => Seq::<char>::empty(),
    };
    let ex = match example {
        Some(e) => "\r\n\r\n|white|Example:|-| "@ + e,
        None => Seq::<char>::empty(),
    };
    if topics.len() == 0 {
        text == head + description + ex
    } else {
        exists|list: Seq<char>| listed_sorted(topics, list)
            && text == head + description + ex + "\r\n\r\n|white|Subtopics:|-| "@ + list
    }
}

impl Help {
    pub closed spec fn usage_view(&self) -> Option<Seq<char>> {
        opt_view(self.usage)
    }

    pub closed spec fn example_view(&self) -> Option<Seq<char>> {
        opt_view(self.example)
    }

    pub closed spec fn description_view(&self) -> Seq<char> {
        self.description@
    }

    /// The names of the subcommands with guidance, in the order they were added.
    pub closed spec fn topics(&self) -> Seq<Seq<char>> {
        self.subhelp@.map_values(|p: (String, Help)| p.0@)
    }

    /// The guidance on the `i`th subcommand.
    pub closed spec fn subtopic(&self, i: int) -> Help {
        self.subhelp@[i].1
    }

    pub closed spec fn wf(&self) -> bool {
        forall|i: int, j: int| 0 <= i < j < self.topics().len() ==> #[trigger] self.topics()[i] != #[trigger] self.topics()[j]
    }

    /// Guidance with a usage line and a description.
    pub fn new(usage: &str, description: &str) -> (h: Help)
        ensures
            h.wf(),
            h.usage_view() == Some(usage@),
            h.example_view() is None,
            h.description_view() == description@,
            h.topics() == Seq::<Seq<char>>::empty(),
    {
        let h = Help { usage: Some(usage.to_owned()), example: None, description: description.to_owned(), subhelp: Vec::new() };
        assert(h.topics() =~= Seq::<Seq<char>>::empty());
        h
    }

    /// Guidance with only a description.
    pub fn new_simple(description: &str) -> (h: Help)
        ensures
            h.wf(),
            h.usage_view() is None,
            h.example_view() is None,
            h.description_view() == description@,
            h.topics() == Seq::<Seq<char>>::empty(),
    {
        let h = Help { usage: None, example: None, description: description.to_owned(), subhelp: Vec::new() };
        assert(h.topics() =~= Seq::<Seq<char>>::empty());
        h
    }

    /// The same guidance with an example.
    pub fn with_example(self, example: &str) -> (h: Help)
        ensures
            h.wf() == self.wf(),
            h.usage_view() == self.usage_view(),
            h.example_view() == Some(example@),
            h.description_view() == self.description_view(),
            h.topics() == self.topics(),
            forall|i: int| 0 <= i < h.topics().len() ==> #[trigger] h.subtopic(i) == self.subtopic(i),
    {
        let h = Help { example: Some(example.to_owned()), ..self };
        assert(h.topics() =~= self.topics());
        h
    }

    /// The same guidance with guidance on a subcommand, replacing any it had.
    pub fn with_subhelp(self, subcommand: &str, help: Help) -> (h: Help)
        requires
            self.wf(),
        ensures
            h.wf(),
            h.usage_view() == self.usage_view(),
            h.example_view() == self.example_view(),
            h.description_view() == self.description_view(),
            h.topics().to_set() == self.topics().to_set().insert(subcommand@),
            exists|i: int| 0 <= i < h.topics().len() && h.topics()[i] == subcommand@ && #[trigger] h.subtopic(i) == help,
    {
        let ghost u0 = self.usage_view();
        let ghost e0 = self.example_view();
        let ghost d0 = self.description_view();
        let mut h = self;
        let ghost t0 = h.topics();
        let mut i: usize = 0;
        while i < h.subhelp.len()
            invariant
                i <= h.subhelp.len(),
                h.topics() == t0,
                h.wf(),
                h.usage_view() == u0,
                h.example_view() == e0,
                h.description_view() == d0,
                u0 == self.usage_view(),
                e0 == self.example_view(),
                d0 == self.description_view(),
                t0 == self.topics(),
                forall|k: int| 0 <= k < i ==> #[trigger] t0[k] != subcommand@,
            decreases h.subhelp.len() - i,
        {
            if same_text(h.subhelp[i].0.as_str(), subcommand) {
                let ghost before = h.subhelp@;
                h.subhelp.set(i, (subcommand.to_owned(), help));
                proof {
                    assert(h.topics() =~= t0);
                    assert(h.subtopic(i as int) == help);
                    assert(h.topics()[i as int] == subcommand@);
                    assert(t0.to_set() =~= t0.to_set().insert(subcommand@)) by {
                        assert(t0[i as int] == subcommand@);
                    }
                }
                return h;
            }
            i = i + 1;
        }
        let ghost n = h.subhelp.len();
        h.subhelp.push((subcommand.to_owned(), help));
        proof {
            assert(h.topics() =~= t0.push(subcommand@));
            t0.lemma_push_to_set_commute(subcommand@);
            assert forall|a: int, b: int| 0 <= a < b < h.topics().len() implies #[trigger] h.topics()[a] != #[trigger] h.topics()[b] by {
                if b < n {
                    assert(h.topics()[a] == t0[a] && h.topics()[b] == t0[b]);
                } else {
                    assert(h.topics()[a] == t0[a]);
                }
            }
            assert(h.subtopic(n as int) == help);
            assert(h.topics()[n as int] == subcommand@);
        }
        h
    }

    /// The guidance on a subcommand, if there is any.
    pub fn subhelp(&self, subcommand: &str) -> (r: Option<&Help>)
        ensures
            match r {
                Some(h) => exists|i: int| 0 <= i < self.topics().len() && self.topics()[i] == subcommand@ && #[trigger] self.subtopic(i) == *h,
                None => !self.topics().contains(subcommand@),
            },
    {
        let mut i: usize = 0;
        while i < self.subhelp.len()
            invariant
                i <= self.subhelp.len(),
                forall|k: int| 0 <= k < i ==> #[trigger] self.topics()[k] != subcommand@,
            decreases self.subhelp.len() - i,
        {
            if same_text(self.subhelp[i].0.as_str(), subcommand) {
                assert(self.topics()[i as int] == subcommand@);
                assert(self.subtopic(i as int) == self.subhelp@[i as int].1);
                return Some(&self.subhelp[i].1);
            }
            i = i + 1;
        }
        None
    }

    /// The guidance as text.
    pub fn render(&self) -> (s: String)
        ensures
            help_text(self.usage_view(), self.description_view(), self.example_view(), self.topics(), s@),
    {
        let ghost head = match self.usage_view() {
            Some(u) => "|white|Usage:|-| "@ + colorize_usage(u) + "\r\n\r\n"@,
            None => Seq::<char>::empty(),
        };
        let ghost ex = match self.example_view() {
            Some(e) => "\r\n\r\n|white|Example:|-| "@ + e,
            None => Seq::<char>::empty(),
        };
        let mut out: Vec<char> = Vec::new();
        match &self.usage {
            Some(u) => {
                push_str(&mut out, "|white|Usage:|-| ");
                push_usage(&mut out, u.as_str());
                push_str(&mut out, "\r\n\r\n");
            },
            None => {},
        }
        assert(out@ =~= head);
        push_str(&mut out, self.description.as_str());
        match &self.example {
            Some(e) => {
                push_str(&mut out, "\r\n\r\n|white|Example:|-| ");
                push_str(&mut out, e.as_str());
            },
            None => {},
        }
        assert(out@ =~= head + self.description_view() + ex);
        if self.subhelp.len() > 0 {
            let mut names: Vec<String> = Vec::new();
            let mut i: usize = 0;
            while i < self.subhelp.len()
                invariant
                    i <= self.subhelp.len(),
                    strings_view(names@) == self.topics().take(i as int),
                decreases self.subhelp.len() - i,
            {
                let ghost before = names@;
                let n = self.subhelp[i].0.clone();
                names.push(n);
                proof {
                    assert(strings_view(names@) =~= strings_view(before).push(self.subhelp@[i as int].0@));
                    assert(self.topics().take(i + 1) =~= self.topics().take(i as int).push(self.topics()[i as int]));
                }
                i = i + 1;
            }
            assert(self.topics().take(self.subhelp.len() as int) =~= self.topics());
            let list = sorted_word_list(names);
            let ghost body = out@;
            push_str(&mut out, "\r\n\r\n|white|Subtopics:|-| ");
            let lc = chars_of(list.as_str());
            push_chars(&mut out, &lc);
            proof {
                assert(listed_sorted(self.topics(), list@));
                assert(out@ =~= head + self.description_view() + ex + "\r\n\r\n|white|Subtopics:|-| "@ + list@);
            }
        }
        string_from_chars(&out)
    }
}

/// A command: its name, its guidance, whether only immortals may use it, and a single
/// character that runs it.
pub struct Command {
    name: String,
    help: Help,
    restricted: bool,
    shortcut: Option<char>,
}

/// A command as plain values.
pub struct CommandInfo {
    pub name: Seq<char>,
    pub restricted: bool,
    pub shortcut: Option<char>,
}

impl Command {
    pub closed spec fn info(&self) -> CommandInfo {
        CommandInfo { name: self.name@, restricted: self.restricted, shortcut: self.shortcut }
    }

    pub closed spec fn help_of(&self) -> Help {
        self.help
    }

    pub fn new(name: &str, help: Help) -> (c: Command)
        ensures
            c.info() == (CommandInfo { name: name@, restricted: false, shortcut: None }),
            c.help_of() == help,
    {
        Command { name: name.to_owned(), help, restricted: false, shortcut: None }
    }

    /// The same command, for immortals only.
    pub fn restricted(self) -> (c: Command)
        ensures
            c.info() == (CommandInfo { restricted: true, ..self.info() }),
            c.help_of() == self.help_of(),
    {
        Command { restricted: true, ..self }
    }

    /// The same command, also run by a character.
    pub fn with_shortcut(self, shortcut: char) -> (c: Command)
        ensures
            c.info() == (CommandInfo { shortcut: Some(shortcut), ..self.info() }),
            c.help_of() == self.help_of(),
    {
        Command { shortcut: Some(shortcut), ..self }
    }
}

/// Whether a player may use a command.
pub open spec fn visible(c: CommandInfo, restricted: bool) -> bool {
    !restricted || !c.restricted
}

/// The names of the usable commands that start with `prefix`, in order.
pub open spec fn matching(cmds: Seq<CommandInfo>, prefix: Seq<char>, restricted: bool) -> Seq<Seq<char>>
    decreases cmds.len(),
{
    if cmds.len() == 0 {
        Seq::empty()
    } else {
        let rest = matching(cmds.drop_last(), prefix, restricted);
        let c = cmds.last();
        if visible(c, restricted) && prefix.is_prefix_of(c.name) {
            rest.push(c.name)
        } else {
            rest
        }
    }
}

/// The names of the usable commands, each drawn in white, in order.
pub open spec fn visible_topics(cmds: Seq<CommandInfo>, restricted: bool) -> Seq<Seq<char>>
    decreases cmds.len(),
{
    if cmds.len() == 0 {
        Seq::empty()
    } else {
        let rest = visible_topics(cmds.drop_last(), restricted);
        let c = cmds.last();
        if visible(c, restricted) {
            rest.push("|white|"@ + c.name + "|-|"@)
        } else {
            rest
        }
    }
}

/// A command to run, with the input that follows its name.
pub struct Call {
    pub command: String,
    pub arguments: String,
}

/// What running a command by a prefix of its name gives: the one usable command it
/// names, or why there is none.
pub open spec fn run_result(cmds: Seq<CommandInfo>, name: Seq<char>, rest: Seq<char>, restricted: bool,
    r: Result<(Seq<char>, Seq<char>), Seq<char>>) -> bool {
    let m = matching(cmds, name, restricted);
    if m.len() > 1 {
        exists|list: Seq<char>| listed_sorted(m, list) && r == Err::<(Seq<char>, Seq<char>), Seq<char>>(
            "Be more specific: "@ + list + " could match."@)
    } else if m.len() == 1 {
        r == Ok::<(Seq<char>, Seq<char>), Seq<char>>((m[0], rest))
    } else {
        r == Err::<(Seq<char>, Seq<char>), Seq<char>>("I don't know what that means."@)
    }
}

pub open spec fn call_view(r: Result<Call, String>) -> Result<(Seq<char>, Seq<char>), Seq<char>> {
    match r {
        Ok(c) => Ok((c.command@, c.arguments@)),
        Err(e) => Err(e@),
    }
}

/// The commands players type.
pub struct Commands {
    commands: Vec<Command>,
    shortcuts: Vec<CommandKey>,
}

/// The name, restriction and shortcut of a registered command.
struct CommandKey {
    name: String,
    restricted: bool,
    shortcut: Option<char>,
}

pub open spec fn infos(s: Seq<Command>) -> Seq<CommandInfo> {
    s.map_values(|c: Command| c.info())
}

/// The command a character runs: the last one registered with it.
pub open spec fn shortcut_of(cmds: Seq<CommandInfo>, c: char) -> Option<Seq<char>>
    decreases cmds.len(),
{
    if cmds.len() == 0 {
        None
    } else if cmds.last().shortcut == Some(c) {
        Some(cmds.last().name)
    } else {
        shortcut_of(cmds.drop_last(), c)
    }
}

/// The welcome line that heads the list of guidance topics.
pub open spec fn guidance_header() -> Seq<char> {
    "|SteelBlue3|Welcome to the City Six guidance system.\r\n\r\nGuidance is available on the following topics:|-|\r\n"@
}

impl Commands {
    pub closed spec fn entries(&self) -> Seq<CommandInfo> {
        infos(self.commands@)
    }

    /// The commands with their shortcut characters, as registered.
    pub closed spec fn registered(&self) -> Seq<CommandInfo> {
        self.shortcuts@.map_values(|k: CommandKey| CommandInfo { name: k.name@, restricted: k.restricted, shortcut: k.shortcut })
    }

    pub closed spec fn commands_seq(&self) -> Seq<Command> {
        self.commands@
    }

    pub closed spec fn help_at(&self, i: int) -> Help {
        self.commands@[i].help
    }

    pub closed spec fn wf(&self) -> bool {
        names_distinct(self.commands@)
    }
}



/// Where a command of this name stands, if one does.
pub open spec fn name_index(s: Seq<Command>, name: Seq<char>) -> Option<int> {
    if exists|i: int| 0 <= i < s.len() && #[trigger] s[i].info().name == name {
        Some(choose|i: int| 0 <= i < s.len() && #[trigger] s[i].info().name == name)
    } else {
        None
    }
}

/// Registers commands in order: a command replaces one of the same name, in its place.
pub open spec fn register_all(s: Seq<Command>) -> Seq<Command>
    decreases s.len(),
{
    if s.len() == 0 {
        Seq::empty()
    } else {
        let before = register_all(s.drop_last());
        match name_index(before, s.last().info().name) {
            Some(i) => before.update(i, s.last()),
            None => before.push(s.last()),
        }
    }
}

pub open spec fn names_distinct(s: Seq<Command>) -> bool {
    forall|i: int, j: int| 0 <= i < j < s.len() ==> #[trigger] s[i].info().name != #[trigger] s[j].info().name
}

/// What asking for guidance gives, where `rest` is what follows `help`.
pub open spec fn help_outcome(cmds: &Commands, rest: Seq<char>, restricted: bool, t: Seq<char>) -> bool {
    if rest.len() == 0 {
        exists|list: Seq<char>| listed_sorted(visible_topics(cmds.entries(), restricted), list)
            && t == guidance_header() + list
    } else {
        let (topic, used) = next_token(rest)->0;
        match name_index(cmds.commands_seq(), topic) {
            None => t == "There is no guidance for \""@ + topic + ".\""@,
            Some(i) => if cmds.entries()[i].restricted && restricted {
                t == "There is no guidance for \""@ + topic + ".\""@
            } else {
                let h = cmds.help_at(i);
                match next_token(rest.skip(used)) {
                    Some((sub, _)) => if h.topics().contains(sub) {
                        exists|k: int| 0 <= k < h.topics().len() && h.topics()[k] == sub && help_text(
                            #[trigger] h.subtopic(k).usage_view(), h.subtopic(k).description_view(),
                            h.subtopic(k).example_view(), h.subtopic(k).topics(), t)
                    } else {
                        t == "There is no guidance subtopic \""@ + sub + "\" for \""@ + topic + ".\""@
                    },
                    None => help_text(h.usage_view(), h.description_view(), h.example_view(), h.topics(), t),
                }
            },
        }
    }
}

/// What parsing a line of input gives: a shortcut character runs its command on the
/// rest of the line; otherwise the first word names a command, or asks for guidance.
pub open spec fn parse_outcome(cmds: &Commands, input: Seq<char>, restricted: bool,
    r: Result<(Seq<char>, Seq<char>), Seq<char>>) -> bool {
    if input.len() > 0 && shortcut_of(cmds.registered(), input[0]) is Some {
        run_result(cmds.entries(), shortcut_of(cmds.registered(), input[0])->0, input.drop_first(), restricted, r)
    } else {
        match next_token(input) {
            None => r == Err::<(Seq<char>, Seq<char>), Seq<char>>("Go on, then."@),
            Some((word, used)) => if word == "help"@ {
                r matches Err(t) && help_outcome(cmds, input.skip(used), restricted, t)
            } else {
                run_result(cmds.entries(), word, input.skip(used), restricted, r)
            },
        }
    }
}

fn find_name(v: &Vec<Command>, name: &str) -> (r: Option<usize>)
    requires
        names_distinct(v@),
    ensures
        match r {
            Some(i) => name_index(v@, name@) == Some(i as int) && i < v.len(),
            None => name_index(v@, name@) is None,
        },
{
    let mut i: usize = 0;
    while i < v.len()
        invariant
            i <= v.len(),
            names_distinct(v@),
            forall|k: int| 0 <= k < i ==> #[trigger] v@[k].info().name != name@,
        decreases v.len() - i,
    {
        if same_text(v[i].name.as_str(), name) {
            proof {
                assert(v@[i as int].info().name == name@);
                let c = choose|c: int| 0 <= c < v@.len() && #[trigger] v@[c].info().name == name@;
                assert(v@[c].info().name == name@);
            }
            return Some(i);
        }
        i = i + 1;
    }
    None
}

impl Commands {
    /// Registers commands; a later command replaces an earlier one of the same name.
    pub fn new(initial: Vec<Command>) -> (c: Commands)
        ensures
            c.wf(),
            c.commands_seq() == register_all(initial@),
            c.registered() == infos(initial@),
    {
        let mut commands: Vec<Command> = Vec::new();
        let mut shortcuts: Vec<CommandKey> = Vec::new();
        let mut rest = initial;
        let ghost all = rest@;
        let total = rest.len();
        let mut i: usize = 0;
        while rest.len() > 0
            invariant
                all.len() == total,
                i + rest.len() == total,
                rest@ == all.skip(i as int),
                commands@ == register_all(all.take(i as int)),
                names_distinct(commands@),
                shortcuts@.map_values(|k: CommandKey| CommandInfo { name: k.name@, restricted: k.restricted, shortcut: k.shortcut })
                    == infos(all.take(i as int)),
            decreases rest.len(),
        {
            let ghost before = rest@;
            let command = rest.remove(0);
            proof {
                assert(command == all[i as int]);
                assert(rest@ =~= all.skip(i + 1));
                assert(all.take(i + 1).drop_last() =~= all.take(i as int));
                assert(all.take(i + 1).last() == command);
            }
            let ghost sk = shortcuts@;
            let key = CommandKey { name: command.name.clone(), restricted: command.restricted, shortcut: command.shortcut };
            let ghost kv = key;
            shortcuts.push(key);
            proof {
                let f = |k: CommandKey| CommandInfo { name: k.name@, restricted: k.restricted, shortcut: k.shortcut };
                assert(shortcuts@ =~= sk.push(kv));
                assert(shortcuts@.map_values(f) =~= sk.map_values(f).push(f(kv)));
                assert(f(kv) == command.info());
                assert(infos(all.take(i + 1)) =~= infos(all.take(i as int)).push(command.info()));
            }
            let ghost cb = commands@;
            match find_name(&commands, command.name.as_str()) {
                Some(j) => {
                    commands.set(j, command);
                    proof {
                        assert forall|a: int, b: int| 0 <= a < b < commands@.len() implies #[trigger] commands@[a].info().name != #[trigger] commands@[b].info().name by {
                            if a != j && b != j {
                                assert(commands@[a] == cb[a] && commands@[b] == cb[b]);
                            } else if a == j {
                                assert(commands@[b] == cb[b]);
                                assert(cb[j as int].info().name == commands@[a].info().name);
                            } else {
                                assert(commands@[a] == cb[a]);
                                assert(cb[j as int].info().name == commands@[b].info().name);
                            }
                        }
                    }
                },
                None => {
                    let ghost nm = command.info().name;
                    commands.push(command);
                    proof {
                        assert forall|a: int, b: int| 0 <= a < b < commands@.len() implies #[trigger] commands@[a].info().name != #[trigger] commands@[b].info().name by {
                            if b < cb.len() {
                                assert(commands@[a] == cb[a] && commands@[b] == cb[b]);
                            } else {
                                assert(commands@[a] == cb[a]);
                                if cb[a].info().name == nm {
                                    assert(name_index(cb, nm) is Some);
                                }
                            }
                        }
                    }
                },
            }
            i = i + 1;
        }
        proof {
            assert(all.take(total as int) =~= all);
        }
        let c = Commands { commands, shortcuts };
        proof {
            assert(c.entries() == infos(c.commands_seq()));
        }
        c
    }

    /// The one usable command whose name starts with `name`, to run on `rest`.
    fn run_command(&self, name: &str, rest: &str, restricted: bool) -> (r: Result<Call, String>)
        ensures
            run_result(self.entries(), name@, rest@, restricted, call_view(r)),
    {
        let mut matches: Vec<String> = Vec::new();
        let mut i: usize = 0;
        while i < self.commands.len()
            invariant
                i <= self.commands.len(),
                strings_view(matches@) == matching(self.entries().take(i as int), name@, restricted),
            decreases self.commands.len() - i,
        {
            let c = &self.commands[i];
            proof {
                assert(self.entries().take(i + 1).drop_last() =~= self.entries().take(i as int));
                assert(self.entries().take(i + 1).last() == c.info());
            }
            let cn = chars_of(c.name.as_str());
            let pn = chars_of(name);
            if (!restricted || !c.restricted) && starts_with(&cn, &pn) {
                let ghost before = strings_view(matches@);
                matches.push(c.name.clone());
                assert(strings_view(matches@) =~= before.push(c.info().name));
            }
            i = i + 1;
        }
        assert(self.entries().take(self.commands.len() as int) =~= self.entries());
        if matches.len() > 1 {
            let ghost m = strings_view(matches@);
            let list = sorted_word_list(matches);
            let mut out: Vec<char> = Vec::new();
            push_str(&mut out, "Be more specific: ");
            push_str(&mut out, list.as_str());
            push_str(&mut out, " could match.");
            let e = string_from_chars(&out);
            proof {
                assert(listed_sorted(m, list@));
                assert(e@ =~= "Be more specific: "@ + list@ + " could match."@);
            }
            Err(e)
        } else if matches.len() == 1 {
            let command = matches.remove(0);
            Ok(Call { command, arguments: rest.to_owned() })
        } else {
            Err("I don't know what that means.".to_owned())
        }
    }

    /// Guidance: the list of topics, or a command's guidance, or a subcommand's.
    fn help(&self, rest: &str, restricted: bool) -> (t: String)
        requires
            self.wf(),
        ensures
            help_outcome(self, rest@, restricted, t@),
    {
        let mut tokens = Tokenizer::new(rest);
        if rest.unicode_len() == 0 {
            let mut topics: Vec<String> = Vec::new();
            let mut i: usize = 0;
            while i < self.commands.len()
                invariant
                    i <= self.commands.len(),
                    strings_view(topics@) == visible_topics(self.entries().take(i as int), restricted),
                decreases self.commands.len() - i,
            {
                let c = &self.commands[i];
                proof {
                    assert(self.entries().take(i + 1).drop_last() =~= self.entries().take(i as int));
                    assert(self.entries().take(i + 1).last() == c.info());
                }
                if !restricted || !c.restricted {
                    let mut w: Vec<char> = Vec::new();
                    push_str(&mut w, "|white|");
                    push_str(&mut w, c.name.as_str());
                    push_str(&mut w, "|-|");
                    let ghost before = strings_view(topics@);
                    topics.push(string_from_chars(&w));
                    assert(strings_view(topics@) =~= before.push("|white|"@ + c.info().name + "|-|"@));
                }
                i = i + 1;
            }
            assert(self.entries().take(self.commands.len() as int) =~= self.entries());
            let ghost tv = strings_view(topics@);
            let list = sorted_word_list(topics);
            let mut out: Vec<char> = Vec::new();
            push_str(&mut out, "|SteelBlue3|Welcome to the City Six guidance system.\r\n\r\nGuidance is available on the following topics:|-|\r\n");
            push_str(&mut out, list.as_str());
            let t = string_from_chars(&out);
            proof {
                assert(listed_sorted(tv, list@));
                assert(t@ =~= guidance_header() + list@);
            }
            return t;
        }
        let topic = match tokens.next() {
            Some(w) => w,
            None => return String::new(),
        };
        let no_guidance = || -> (s: String)
            ensures
                s@ == "There is no guidance for \""@ + topic@ + ".\""@,
        {
            let mut out: Vec<char> = Vec::new();
            push_str(&mut out, "There is no guidance for \"");
            push_str(&mut out, topic);
            push_str(&mut out, ".\"");
            string_from_chars(&out)
        };
        match find_name(&self.commands, topic) {
            None => no_guidance(),
            Some(i) => {
                let c = &self.commands[i];
                if c.restricted && restricted {
                    no_guidance()
                } else {
                    match tokens.next() {
                        Some(sub) => match c.help.subhelp(sub) {
                            Some(h) => h.render(),
                            None => {
                                let mut out: Vec<char> = Vec::new();
                                push_str(&mut out, "There is no guidance subtopic \"");
                                push_str(&mut out, sub);
                                push_str(&mut out, "\" for \"");
                                push_str(&mut out, topic);
                                push_str(&mut out, ".\"");
                                string_from_chars(&out)
                            },
                        },
                        None => c.help.render(),
                    }
                }
            },
        }
    }

    /// Parses a line of input into the command to run.
    pub fn parse(&self, input: &str, restricted: bool) -> (r: Result<Call, String>)
        requires
            self.wf(),
        ensures
            parse_outcome(self, input@, restricted, call_view(r)),
    {
        let n = input.unicode_len();
        if n > 0 {
            let c = input.get_char(0);
            let len = self.shortcuts.len();
            let mut k: usize = len;
            let mut found: Option<usize> = None;
            assert(self.registered().take(len as int) =~= self.registered());
            while k > 0 && found.is_none()
                invariant
                    k <= len == self.shortcuts.len(),
                    input@.len() > 0,
                    c == input@[0],
                    found is None ==> shortcut_of(self.registered(), c) == shortcut_of(self.registered().take(k as int), c),
                    found matches Some(j) ==> j < len && shortcut_of(self.registered(), c) == Some(self.registered()[j as int].name),
                decreases k, (if found is None { 1int } else { 0int }),
            {
                proof {
                    assert(self.registered().take(k as int).drop_last() =~= self.registered().take(k - 1));
                    assert(self.registered().take(k as int).last() == self.registered()[k - 1]);
                }
                if self.shortcuts[k - 1].shortcut == Some(c) {
                    found = Some(k - 1);
                } else {
                    k = k - 1;
                }
            }
            match found {
                Some(j) => {
                    let name = self.shortcuts[j].name.as_str();
                    let rest = input.substring_char(1, n);
                    proof {
                        assert(rest@ =~= input@.drop_first());
                    }
                    return self.run_command(name, rest, restricted);
                },
                None => {
                    assert(self.registered().take(0) =~= Seq::<CommandInfo>::empty());
                },
            }
        }
        let mut tokens = Tokenizer::new(input);
        match tokens.next() {
            Some(word) => {
                let rest = tokens.rest();
                if same_text(word, "help") {
                    Err(self.help(rest, restricted))
                } else {
                    self.run_command(word, rest, restricted)
                }
            },
            None => Err("Go on, then.".to_owned()),
        }
    }
}

/// Whether `s` starts with `p`.
fn starts_with(s: &Vec<char>, p: &Vec<char>) -> (b: bool)
    ensures
        b == p@.is_prefix_of(s@),
{
    if p.len() > s.len() {
        return false;
    }
    let mut i: usize = 0;
    while i < p.len()
        invariant
            p.len() <= s.len(),
            i <= p.len(),
            forall|k: int| 0 <= k < i ==> s@[k] == p@[k],
        decreases p.len() - i,
    {
        if s[i] != p[i] {
            assert(s@.take(p.len() as int)[i as int] != p@[i as int]);
            return false;
        }
        i = i + 1;
    }
    assert(s@.take(p.len() as int) =~= p@);
    true
}



/// The names, restrictions and shortcuts of the commands players can type.
pub open spec fn default_command_infos() -> Seq<CommandInfo> {
    seq![
        CommandInfo { name: "down"@, restricted: false, shortcut: None },
        CommandInfo { name: "description"@, restricted: false, shortcut: None },
        CommandInfo { name: "drop"@, restricted: false, shortcut: None },
        CommandInfo { name: "east"@, restricted: false, shortcut: None },
        CommandInfo { name: "emote"@, restricted: false, shortcut: Some('\'') },
        CommandInfo { name: "exits"@, restricted: false, shortcut: None },
        CommandInfo { name: "get"@, restricted: false, shortcut: None },
        CommandInfo { name: "inventory"@, restricted: false, shortcut: None },
        CommandInfo { name: "look"@, restricted: false, shortcut: None },
        CommandInfo { name: "me"@, restricted: false, shortcut: Some('/') },
        CommandInfo { name: "north"@, restricted: false, shortcut: None },
        CommandInfo { name: "object"@, restricted: true, shortcut: None },
        CommandInfo { name: "player"@, restricted: true, shortcut: None },
        CommandInfo { name: "prototype"@, restricted: true, shortcut: None },
        CommandInfo { name: "restart"@, restricted: true, shortcut: None },
        CommandInfo { name: "room"@, restricted: true, shortcut: None },
        CommandInfo { name: "say"@, restricted: false, shortcut: Some('\'') },
        CommandInfo { name: "scripts"@, restricted: true, shortcut: None },
        CommandInfo { name: "stats"@, restricted: false, shortcut: None },
        CommandInfo { name: "send"@, restricted: false, shortcut: None },
        CommandInfo { name: "shutdown"@, restricted: true, shortcut: None },
        CommandInfo { name: "south"@, restricted: false, shortcut: None },
        CommandInfo { name: "teleport"@, restricted: true, shortcut: None },
        CommandInfo { name: "up"@, restricted: false, shortcut: None },
        CommandInfo { name: "west"@, restricted: false, shortcut: None },
        CommandInfo { name: "use"@, restricted: false, shortcut: None },
        CommandInfo { name: "who"@, restricted: false, shortcut: None },
    ]
}

/// The commands players can type, with their guidance.
pub fn default_commands() -> (v: Vec<Command>)
    ensures
        infos(v@) == default_command_infos(),
{
    let mut commands: Vec<Command> = Vec::new();
    commands.push(Command::new(
        "down",
        Help::new("down", "Moves you to the room below, if possible."),
    ));
    commands.push(Command::new(
        "description",
        Help::new("description <text>", "Sets your character's description.")
            .with_example("description A fine looking being."),
    ));
    commands.push(Command::new(
        "drop",
        Help::new(
            "drop <keyword> [<keyword>..]",
            "Drops the item indicated by the specified keyword(s) onto the ground.",
        )
        .with_example("drop fuzzy bear"),
    ));
    commands.push(Command::new(
        "east",
        Help::new("east", "Moves you to the room to the east, if possible."),
    ));
    commands.push(Command::new(
        "emote",
        Help::new(
                "me <message> || /<message>",
                "Causes your character to emote the message to the room. The example message \
                 would read as \"Ted dances around.\"",
            )
            .with_example("me dances around. || 'dances around."),
    ).with_shortcut('\''));
    commands.push(Command::new(
        "exits",
        Help::new("exits", "Lists the exits from the current room."),
    ));
    commands.push(Command::new(
        "get",
        Help::new(
            "get <keyword> [<keyword>..]",
            "Picks up the item indicated by the specified keyword(s) from the ground.",
        )
        .with_example("get fuzzy bear"),
    ));
    commands.push(Command::new(
        "inventory",
        Help::new("inventory", "Displays a list of items in your inventory."),
    ));
    commands.push(Command::new(
        "look",
        Help::new(
            "look [<direction>] || look at <keyword> [<keyword>..]",
            "Look around the room, in an adjacent room, or at something specific in the current \
             room.",
        )
        .with_example("look west || look at fuzzy bear"),
    ));
    commands.push(Command::new(
        "me",
        Help::new(
                "me <text> || /<text>",
                "Causes your character to emote the given text. The example would read: \"Ted \
                 dances around.\" for someone named Ted",
            )
            .with_example("me dances around. || /dances around."),
    ).with_shortcut('/'));
    commands.push(Command::new(
        "north",
        Help::new("north", "Moves you to the room to the north, if possible."),
    ));
    commands.push(Command::new(
        "object",
        Help::new(
                "object new <prototype ID> || object <id> <subcommand>",
                "Creates, modifies, and removes objects from the game world. Objects inherit \
                 their properties from a prototype by default, but they can be overridden.",
            )
            .with_subhelp(
                "desc",
                Help::new(
                    "object <id> desc <text>",
                    "Sets an object's description. Descriptions are prose and should contain one \
                     or more complete sentences.",
                )
                .with_example("object 2 desc An adorable teddy bear. It looks well loved."),
            )
            .with_subhelp(
                "errors",
                Help::new(
                    "object <id> errors <script name>",
                    "Retrieves information on the latest error that occurred for the provided \
                     script name on the object, if any.",
                )
                .with_example("object 2 errors robo_dog_init"),
            )
            .with_subhelp(
                "flags",
                Help::new_simple(
                    "Flags are used to set binary properties on objects.\r\n  |white|fixed|-|: \
                     prevents the object from being picked up.\r\n  |white|subtle|-|: prevents \
                     the object from being listed in the rooms item list when the look command is \
                     used. It can still be looked at, however.",
                ),
            )
            .with_subhelp(
                "info",
                Help::new("object <id> info", "Displays information about an object.")
                    .with_example("object 2 info"),
            )
            .with_subhelp(
                "inherit",
                Help::new(
                    "object <id> inherit [name] [desc] [flags] [keywords] [scripts]",
                    "Resumes inheriting the specified fields from the prototype object.",
                )
                .with_example("object 2 inherit name scripts"),
            )
            .with_subhelp(
                "init",
                Help::new(
                    "object <id> init",
                    "Clears all attached script data, FSMs, and timers before running all \
                     attached init scripts.",
                )
                .with_example("object 4 init"),
            )
            .with_subhelp(
                "keywords",
                Help::new(
                    "object <id> keywords (add||remove||set) <keyword> [<keyword>..]",
                    "Changes a object's keywords. The add command adds keywords to the set, \
                     remove removes, and set changes the keywords to be only the passed in \
                     values. Keywords are the primary way players interact with objects and \
                     should be obvious from the object's name. Extra keywords can be added for \
                     disambiguation.",
                )
                .with_example("object 2 keywords set fuzzy wuzzy bear"),
            )
            .with_subhelp(
                "new",
                Help::new(
                    "object new <prototype ID>",
                    "Creates a new object from a prototype. New objects are placed in the current \
                     room.",
                )
                .with_example("object new 4"),
            )
            .with_subhelp(
                "name",
                Help::new(
                    "object <id> name <text>",
                    "Sets the object's name to <text>. Names should: be nouns, only be \
                     capitalized when they are proper nouns, and avoid terminating punctuation.",
                )
                .with_example("object 2 name fuzzy bear"),
            )
            .with_subhelp(
                "remove",
                Help::new(
                    "object <id> remove",
                    "Removes the object from the game world. This will remove all instances of \
                     the object from rooms, players, and other locations.",
                )
                .with_example("object 2 remove"),
            )
            .with_subhelp(
                "set",
                Help::new(
                    "object <id> set <flag> [<flag>..]",
                    "Sets one or more flags on the object. Use \"help object flags\" for more \
                     information about flags.",
                )
                .with_example("object 2 set fixed subtle"),
            )
            .with_subhelp(
                "unset",
                Help::new(
                    "object <id> unset <flag> [<flag>..]",
                    "Clears one or more flags on the object. Use \"help object flags\" for more \
                     information about flags.",
                )
                .with_example("object 2 unset fixed subtle"),
            ),
    ).restricted());
    commands.push(Command::new(
        "player",
        Help::new(
                "player <name> <subcommand>",
                "Commands for managing players in the game world.",
            )
            .with_subhelp(
                "errors",
                Help::new(
                    "player <id> errors <script name>",
                    "Retrieves information on the latest error that occurred for the provided \
                     script name on the player, if any.",
                )
                .with_example("player 2 errors ted_super_power"),
            )
            .with_subhelp(
                "flags",
                Help::new_simple(
                    "Flags are used to set binary properties on players.\r\n  |white|immortal|-|: \
                     grants the player access to all immortal commands.",
                ),
            )
            .with_subhelp(
                "info",
                Help::new("player <name> info", "Displays information about a player.")
                    .with_example("player Ted info"),
            )
            .with_subhelp(
                "init",
                Help::new(
                    "player <name> init",
                    "Clears all attached script data, FSMs, and timers before running all \
                     attached init scripts.",
                )
                .with_example("player Ted init"),
            )
            .with_subhelp(
                "set",
                Help::new(
                    "player <name> set <flag> [<flag>..]",
                    "Sets one or more flags on the player. Use \"help player flags\" for more \
                     information about flags.",
                )
                .with_example("player Ted set immortal"),
            )
            .with_subhelp(
                "unset",
                Help::new(
                    "player <name> unset <flag> [<flag>..]",
                    "Clears one or more flags on the player. Use \"help player flags\" for more \
                     information about flags.",
                )
                .with_example("player 2 unset immortal"),
            ),
    ).restricted());
    commands.push(Command::new(
        "prototype",
        Help::new(
                "prototype new || prototype <id> <subcommand>",
                "Creates, modifies, and removes prototypes from the game world.",
            )
            .with_subhelp(
                "desc",
                Help::new(
                    "prototype <id> desc <text>",
                    "Sets an prototype's description. Descriptions are prose and should contain \
                     one or more complete sentences.",
                )
                .with_example("prototype 2 desc An adorable teddy bear. It looks well loved."),
            )
            .with_subhelp(
                "info",
                Help::new(
                    "prototype <id> info",
                    "Displays information about a prototype.",
                )
                .with_example("prototype 2 info"),
            )
            .with_subhelp(
                "keywords",
                Help::new(
                    "prototype <id> keywords (add||remove||set) <keyword> [<keyword>..]",
                    "Changes a prototype's keywords. The add command adds keywords to the set, \
                     remove removes, and set changes the keywords to be only the passed in \
                     values. Keywords are the primary way players interact with objects and \
                     should be obvious from the object's name. Extra keywords can be added for \
                     disambiguation.",
                )
                .with_example("prototype 2 keywords set fuzzy bear"),
            )
            .with_subhelp(
                "list",
                Help::new("prototype list", "Lists all prototypes by name and ID."),
            )
            .with_subhelp(
                "name",
                Help::new(
                    "prototype <id> name <text>",
                    "Sets the prototype's name to <text>. Names should: be nouns, only be \
                     capitalized when they are proper nouns, and avoid terminating punctuation.",
                )
                .with_example("prototype 2 name fuzzy bear"),
            )
            .with_subhelp(
                "new",
                Help::new("prototype new", "Creates a new prototype."),
            )
            .with_subhelp(
                "set",
                Help::new(
                    "prototype <id> set <flag> [<flag>..]",
                    "Sets one or more flags on the prototype. Use \"help object flags\" for more \
                     information about flags.",
                )
                .with_example("prototype 2 set fixed subtle"),
            )
            .with_subhelp(
                "unset",
                Help::new(
                    "prototype <id> unset <flag> [<flag>..]",
                    "Clears one or more flags on the prototype. Use \"help object flags\" for \
                     more information about flags.",
                )
                .with_example("prototype 2 unset fixed subtle"),
            ),
    ).restricted());
    commands.push(Command::new(
        "restart",
        Help::new("restart", "Immediately restarts ReMUD."),
    ).restricted());
    commands.push(Command::new(
        "room",
        Help::new(
                "room <subcommand>",
                "Creates, modifies, and removes rooms from the game world. All room commands \
                 apply to the room you are in (aside from \"room new\").",
            )
            .with_subhelp(
                "desc",
                Help::new(
                    "room desc <text>",
                    "Sets a room's description. Descriptions are prose and should contain one or \
                     more complete sentences.",
                )
                .with_example(
                    "room desc This tattoo shop has seen better days. Most corners of the room \
                     are grungy, and the chair is torn from wear. A tattoo gun rests on the \
                     chair-side table.",
                ),
            )
            .with_subhelp(
                "errors",
                Help::new(
                    "room <id> errors <script name>",
                    "Retrieves information on the latest error that occurred for the provided \
                     script name on the room, if any.",
                )
                .with_example("room 2 errors poisonous_gas"),
            )
            .with_subhelp(
                "info",
                Help::new("help info", "Displays information about the current room."),
            )
            .with_subhelp(
                "init",
                Help::new(
                    "room <id> init",
                    "Clears all attached script data, FSMs, and timers before running all \
                     attached init scripts.",
                )
                .with_example("room 4 init"),
            )
            .with_subhelp(
                "link",
                Help::new(
                    "room link <direction> <destination room ID>",
                    "Adds an exit to the current room in the specified direction which leads to \
                     the specified room ID.",
                )
                .with_example("room link down 4"),
            )
            .with_subhelp(
                "name",
                Help::new(
                    "room name <text>",
                    "Sets a room's name. Room names should be in title case and avoid terminating \
                     punctuation.",
                )
                .with_example("room name Tattoo Shop"),
            )
            .with_subhelp(
                "new",
                Help::new(
                    "room new [<direction>]",
                    "Creates a new room. If direction is omitted, the new room will not have any \
                     exits and thus not be attached to the world. If a direction is used, the \
                     room will be connected in that direction from the current room and a \
                     reciprocal exit will be created from the new room to the current room.",
                )
                .with_example("room new west"),
            )
            .with_subhelp(
                "regions",
                Help::new(
                    "room regions (add||remove||set) <region> [<region..>]",
                    "Manipulates the regions for the current room. Add adds, remove removes, and \
                     set overwrites the entire region list. Regions are akin to room tags, and \
                     can be used to group or categorize rooms.",
                )
                .with_example("room regions set city street"),
            )
            .with_subhelp(
                "remove",
                Help::new(
                    "room remove",
                    "Removes the current room and moves its contents to the void room (room 0). \
                     This includes all players and objects currently within the room, including \
                     the invoking player.",
                ),
            )
            .with_subhelp(
                "unlink",
                Help::new(
                    "room unlink <direction>",
                    "Removes the specified exit from the current room.",
                )
                .with_example("room unlink down"),
            ),
    ).restricted());
    commands.push(Command::new(
        "say",
        Help::new(
                "say <message> || '<message>",
                "Causes your character to say the specified message to the room.",
            )
            .with_example("say Hello there. || 'Hello there."),
    ).with_shortcut('\''));
    commands.push(Command::new(
        "scripts",
        Help::new(
                "scripts <script name> <subcommand>",
                "Attaches or detaches a script to or from an object, player, or room.",
            )
            .with_subhelp(
                "attach-init",
                Help::new(
                    "scripts <script name> attach-init (object||prototype||player||room) <id/name>",
                    "Attaches the script to the given object, prototype, player, or room as an \
                     init script. These run once on target load and can initialize the target. \
                     Objects, prototypes, and rooms are indicated by their ID and players by \
                     their name.",
                )
                .with_example("scripts robo_dog_init init object 5"),
            )
            .with_subhelp(
                "attach-post",
                Help::new(
                    "scripts <script name> attach-post (object||prototype||player||room) <id/name>",
                    "Attaches the script to the given object, prototype, player, or room as a \
                     post-action script. These are processed after the triggering action has been \
                     executed. Objects, prototypes, and rooms are indicated by their ID and \
                     players by their name.",
                )
                .with_example("scripts greet_player attach-post object 2"),
            )
            .with_subhelp(
                "attach-pre",
                Help::new(
                    "scripts <script name> attach-pre (object||prototype||player||room) <id/name>",
                    "Attaches the script to the given object, prototype, player, or room as a \
                     pre-action script. These are processed before the triggering action is \
                     executed and can prevent the action from occurring. Objects, prototypes, and \
                     rooms are indicated by their ID and players by their name.",
                )
                .with_example("scripts check_for_keycard pre-action room 4"),
            )
            .with_subhelp(
                "attach-timer",
                Help::new(
                    "scripts <script name> attach-timer <timer name> \
                     (object||prototype||player||room) <id/name>",
                    "Attaches the script to the given object, prototype, player, or room as a \
                     timer script. These are processed when the named timer elapses. Timers can \
                     be initialized in init scripts. Objects, prototypes, and rooms are indicated \
                     by their ID and players by their name.",
                )
                .with_example("scripts greet_player attach-timer flavor_action object 2"),
            )
            .with_subhelp(
                "detach",
                Help::new(
                    "scripts <script name> detach (object||prototype||player||room) <id/name>",
                    "Detaches the script from the given object, prototype, player, or room. \
                     Objects, prototypes, and rooms are indicated by their ID and players by \
                     their name.",
                )
                .with_example("scripts greet_player detach object 2"),
            ),
    ).restricted());
    commands.push(Command::new(
        "stats",
        Help::new("stats", "Displays your vital statistics."),
    ));
    commands.push(Command::new(
        "send",
        Help::new(
            "send <recipient> <message>",
            "Sends the specified message to the recipient player.",
        )
        .with_example("send Ted Hello Ted."),
    ));
    commands.push(Command::new(
        "shutdown",
        Help::new("shutdown", "Immediately shuts down ReMUD."),
    ).restricted());
    commands.push(Command::new(
        "south",
        Help::new("south", "Moves you to the room to the south, if possible."),
    ));
    commands.push(Command::new(
        "teleport",
        Help::new("teleport <room ID>", "Teleports you to the specified room."),
    ).restricted());
    commands.push(Command::new(
        "up",
        Help::new("up", "Moves you to the room above, if possible."),
    ));
    commands.push(Command::new(
        "west",
        Help::new("west", "Moves you to the room to the west, if possible."),
    ));
    commands.push(Command::new(
        "use",
        Help::new(
            "use <keyword> [<keyword>..]",
            "Uses the item indicated by the specified keyword(s), if possible.",
        ),
    ));
    commands.push(Command::new(
        "who",
        Help::new("who", "Retrieves a list of online players."),
    ));
    commands
}

impl Default for Commands {
    fn default() -> (c: Commands)
        ensures
            c.wf(),
    {
        Commands::new(default_commands())
    }
}

} // verus!

verus! {

/// Whether a usable command is named by a prefix of its name.
pub open spec fn named_by(c: CommandInfo, prefix: Seq<char>, restricted: bool) -> bool {
    visible(c, restricted) && prefix.is_prefix_of(c.name)
}

proof fn lemma_matching_one(cmds: Seq<CommandInfo>, p: Seq<char>, restricted: bool, k: int, n: int)
    requires
        0 <= k < cmds.len(),
        0 <= n <= cmds.len(),
        named_by(cmds[k], p, restricted),
        forall|j: int| 0 <= j < cmds.len() && j != k ==> !named_by(#[trigger] cmds[j], p, restricted),
    ensures
        matching(cmds.take(n), p, restricted) == if k < n {
            seq![cmds[k].name]
        } else {
            Seq::<Seq<char>>::empty()
        },
    decreases n,
{
    if n > 0 {
        lemma_matching_one(cmds, p, restricted, k, n - 1);
        assert(cmds.take(n).drop_last() =~= cmds.take(n - 1));
        assert(cmds.take(n).last() == cmds[n - 1]);
        if k < n - 1 {
            assert(!named_by(cmds[n - 1], p, restricted));
        } else if k == n - 1 {
            assert(Seq::<Seq<char>>::empty().push(cmds[k].name) =~= seq![cmds[k].name]);
        } else {
            assert(!named_by(cmds[n - 1], p, restricted));
        }
    }
}

proof fn lemma_matching_none(cmds: Seq<CommandInfo>, p: Seq<char>, restricted: bool, n: int)
    requires
        0 <= n <= cmds.len(),
        forall|j: int| 0 <= j < cmds.len() ==> !named_by(#[trigger] cmds[j], p, restricted),
    ensures
        matching(cmds.take(n), p, restricted) == Seq::<Seq<char>>::empty(),
    decreases n,
{
    if n > 0 {
        lemma_matching_none(cmds, p, restricted, n - 1);
        assert(cmds.take(n).drop_last() =~= cmds.take(n - 1));
        assert(cmds.take(n).last() == cmds[n - 1]);
        assert(!named_by(cmds[n - 1], p, restricted));
    }
}

proof fn lemma_matching_two(cmds: Seq<CommandInfo>, p: Seq<char>, restricted: bool, i: int, j: int, n: int)
    requires
        0 <= i < j < cmds.len(),
        0 <= n <= cmds.len(),
        named_by(cmds[i], p, restricted),
        named_by(cmds[j], p, restricted),
    ensures
        matching(cmds.take(n), p, restricted).len() >= (if i < n { 1int } else { 0int }) + (if j < n { 1int } else { 0int }),
    decreases n,
{
    if n > 0 {
        lemma_matching_two(cmds, p, restricted, i, j, n - 1);
        assert(cmds.take(n).drop_last() =~= cmds.take(n - 1));
        assert(cmds.take(n).last() == cmds[n - 1]);
    }
}

/// A prefix runs the one usable command whose name it starts, with the rest of the line;
/// where no usable command's name starts with it, it is not understood; where two do, it
/// is refused as ambiguous.
pub proof fn prefix_names_one_command(cmds: Seq<CommandInfo>, p: Seq<char>, rest: Seq<char>, restricted: bool,
    r: Result<(Seq<char>, Seq<char>), Seq<char>>)
    requires
        run_result(cmds, p, rest, restricted, r),
    ensures
        forall|k: int| 0 <= k < cmds.len() && named_by(cmds[k], p, restricted) && (forall|j: int|
            0 <= j < cmds.len() && j != k ==> !named_by(#[trigger] cmds[j], p, restricted))
            ==> r == Ok::<(Seq<char>, Seq<char>), Seq<char>>((cmds[k].name, rest)),
        (forall|j: int| 0 <= j < cmds.len() ==> !named_by(#[trigger] cmds[j], p, restricted))
            ==> r == Err::<(Seq<char>, Seq<char>), Seq<char>>("I don't know what that means."@),
        forall|i: int, j: int| 0 <= i < j < cmds.len() && named_by(cmds[i], p, restricted)
            && named_by(cmds[j], p, restricted) ==> (r matches Err(t) && t != "I don't know what that means."@),
{
    assert(cmds.take(cmds.len() as int) =~= cmds);
    assert forall|k: int| 0 <= k < cmds.len() && named_by(cmds[k], p, restricted) && (forall|j: int|
        0 <= j < cmds.len() && j != k ==> !named_by(#[trigger] cmds[j], p, restricted))
        implies r == Ok::<(Seq<char>, Seq<char>), Seq<char>>((cmds[k].name, rest)) by {
        lemma_matching_one(cmds, p, restricted, k, cmds.len() as int);
    }
    if forall|j: int| 0 <= j < cmds.len() ==> !named_by(#[trigger] cmds[j], p, restricted) {
        lemma_matching_none(cmds, p, restricted, cmds.len() as int);
    }
    assert forall|i: int, j: int| 0 <= i < j < cmds.len() && named_by(cmds[i], p, restricted)
        && named_by(cmds[j], p, restricted) implies (r matches Err(t) && t != "I don't know what that means."@) by {
        lemma_matching_two(cmds, p, restricted, i, j, cmds.len() as int);
        let m = matching(cmds, p, restricted);
        let list = choose|list: Seq<char>| listed_sorted(m, list) && r == Err::<(Seq<char>, Seq<char>), Seq<char>>(
            "Be more specific: "@ + list + " could match."@);
        reveal_strlit("Be more specific: ");
        reveal_strlit("I don't know what that means.");
        let t = "Be more specific: "@ + list + " could match."@;
        assert(t[0] == 'B');
        assert("I don't know what that means."@[0] == 'I');
    }
}

} // verus!
