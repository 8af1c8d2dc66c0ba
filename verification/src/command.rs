//! Parsing one line of user input into a command: tokenization into a verb
//! and an optional free-text argument, and the interpreter's state machine.
use vstd::prelude::*;

verus! {

/// ASCII whitespace, as the tokenizer understands it.
pub open spec fn is_space(c: char) -> bool {
    c == ' ' || c == '\t' || c == '\n' || c == '\r' || c == '\x0c'
}

/// Every character of `s` is whitespace (true of the empty sequence).
pub open spec fn all_space(s: Seq<char>) -> bool {
    forall|i: int| 0 <= i < s.len() ==> is_space(s[i])
}

/// `s` without its leading whitespace.
pub open spec fn trim_start_spec(s: Seq<char>) -> Seq<char>
    decreases s.len(),
{
    if s.len() == 0 {
        s
    } else if is_space(s[0]) {
        trim_start_spec(s.drop_first())
    } else {
        s
    }
}

/// `s` without its trailing whitespace.
pub open spec fn trim_end_spec(s: Seq<char>) -> Seq<char>
    decreases s.len(),
{
    if s.len() == 0 {
        s
    } else if is_space(s.last()) {
        trim_end_spec(s.drop_last())
    } else {
        s
    }
}

/// `s` without leading or trailing whitespace.
pub open spec fn trim_spec(s: Seq<char>) -> Seq<char> {
    trim_end_spec(trim_start_spec(s))
}

/// Length of the maximal whitespace-free prefix of `s`.
pub open spec fn verb_len_spec(s: Seq<char>) -> nat
    decreases s.len(),
{
    if s.len() == 0 || is_space(s[0]) {
        0
    } else {
        (1 + verb_len_spec(s.drop_first())) as nat
    }
}

proof fn lemma_verb_len_le(t: Seq<char>)
    ensures
        verb_len_spec(t) <= t.len(),
    decreases t.len(),
{
    if t.len() > 0 && !is_space(t[0]) {
        lemma_verb_len_le(t.drop_first());
    }
}

proof fn lemma_trim_start_at(s: Seq<char>, i: int)
    requires
        0 <= i <= s.len(),
        forall|j: int| 0 <= j < i ==> is_space(s[j]),
        i == s.len() || !is_space(s[i]),
    ensures
        trim_start_spec(s) == s.skip(i),
    decreases i,
{
    if i == 0 {
        assert(s.skip(0) =~= s);
    } else {
        assert(is_space(s[0]));
        let s1 = s.drop_first();
        assert(forall|j: int| 0 <= j < i - 1 ==> is_space(s1[j]));
        lemma_trim_start_at(s1, i - 1);
        assert(s1.skip(i - 1) =~= s.skip(i));
    }
}

proof fn lemma_trim_end_at(s: Seq<char>, j: int)
    requires
        0 <= j <= s.len(),
        forall|k: int| j <= k < s.len() ==> is_space(s[k]),
        j == 0 || !is_space(s[j - 1]),
    ensures
        trim_end_spec(s) == s.take(j),
    decreases s.len(),
{
    if j == s.len() {
        if s.len() == 0 {
            assert(s.take(0) =~= s);
        } else {
            assert(!is_space(s.last()));
            assert(s.take(j) =~= s);
        }
    } else {
        assert(is_space(s.last()));
        let s1 = s.drop_last();
        assert(forall|k: int| j <= k < s1.len() ==> is_space(s1[k]));
        lemma_trim_end_at(s1, j);
        assert(s1.take(j) =~= s.take(j));
    }
}

proof fn lemma_verb_len_at(s: Seq<char>, k: int)
    requires
        0 <= k <= s.len(),
        forall|j: int| 0 <= j < k ==> !is_space(s[j]),
        k == s.len() || is_space(s[k]),
    ensures
        verb_len_spec(s) == k,
    decreases k,
{
    if k == 0 {
    } else {
        assert(!is_space(s[0]));
        let s1 = s.drop_first();
        assert(forall|j: int| 0 <= j < k - 1 ==> !is_space(s1[j]));
        lemma_verb_len_at(s1, k - 1);
    }
}

proof fn lemma_trim_end_keeps_head(s: Seq<char>)
    requires
        s.len() > 0,
        !is_space(s[0]),
    ensures
        trim_end_spec(s).len() > 0,
    decreases s.len(),
{
    if s.len() > 0 && is_space(s.last()) {
        let s1 = s.drop_last();
        assert(s1.len() > 0) by {
            if s1.len() == 0 {
                assert(s.last() == s[0]);
            }
        }
        lemma_trim_end_keeps_head(s1);
    }
}

/// A line is entirely whitespace exactly when trimming leaves nothing.
pub proof fn lemma_all_space_iff_trim_empty(s: Seq<char>)
    ensures
        all_space(s) <==> trim_spec(s).len() == 0,
    decreases s.len(),
{
    if s.len() == 0 {
    } else if is_space(s[0]) {
        let s1 = s.drop_first();
        lemma_all_space_iff_trim_empty(s1);
        assert(all_space(s1) ==> all_space(s)) by {
            if all_space(s1) {
                assert(forall|i: int|
                    0 < i < s.len() ==> s[i] == s1[i - 1] && is_space(s1[i - 1]));
            }
        }
        assert(all_space(s) ==> all_space(s1));
    } else {
        assert(trim_start_spec(s) == s);
        lemma_trim_end_keeps_head(s);
        assert(!all_space(s));
    }
}

/// Which of the three argument-taking operations a command names.
#[derive(Clone, Copy, PartialEq, Eq, Structural, Debug)]
pub enum OpKind {
    Get,
    Put,
    Delete,
}

/// A parsed command line. The argument of `Get`/`Put`/`Delete` is the text
/// after the verb with surrounding whitespace trimmed; it may itself contain
/// embedded whitespace.
pub enum Command {
    Blank,
    Show,
    File,
    Get(String),
    Put(String),
    Delete(String),
    MissingName(OpKind),
    Quit,
    Unknown(String),
}

/// Mathematical image of a parsed command.
pub enum CmdView {
    Blank,
    Show,
    File,
    Get(Seq<char>),
    Put(Seq<char>),
    Delete(Seq<char>),
    MissingName(OpKind),
    Quit,
    Unknown(Seq<char>),
}

impl View for Command {
    type V = CmdView;

    open spec fn view(&self) -> CmdView {
        match self {
            Command::Blank => CmdView::Blank,
            Command::Show => CmdView::Show,
            Command::File => CmdView::File,
            Command::Get(a) => CmdView::Get(a@),
            Command::Put(a) => CmdView::Put(a@),
            Command::Delete(a) => CmdView::Delete(a@),
            Command::MissingName(k) => CmdView::MissingName(*k),
            Command::Quit => CmdView::Quit,
            Command::Unknown(v) => CmdView::Unknown(v@),
        }
    }
}

/// The verb of a line: the first whitespace-free token of its trimmed text
/// (empty only when the line is blank).
pub open spec fn verb_of(line: Seq<char>) -> Seq<char> {
    let t = trim_spec(line);
    t.take(verb_len_spec(t) as int)
}

/// The argument of a line: what follows the verb, trimmed of surrounding
/// whitespace. It may itself contain embedded whitespace.
pub open spec fn arg_of(line: Seq<char>) -> Seq<char> {
    let t = trim_spec(line);
    trim_spec(t.skip(verb_len_spec(t) as int))
}

/// What a line of input means: trim it; an empty remainder is a blank line;
/// otherwise the verb selects the operation and the argument names its
/// subject.
pub open spec fn parse_spec(line: Seq<char>) -> CmdView {
    let t = trim_spec(line);
    if t.len() == 0 {
        CmdView::Blank
    } else {
        let v = verb_of(line);
        let a = arg_of(line);
        if v == "show"@ {
            CmdView::Show
        } else if v == "file"@ {
            CmdView::File
        } else if v == "get"@ {
            if a.len() == 0 {
                CmdView::MissingName(OpKind::Get)
            } else {
                CmdView::Get(a)
            }
        } else if v == "put"@ {
            if a.len() == 0 {
                CmdView::MissingName(OpKind::Put)
            } else {
                CmdView::Put(a)
            }
        } else if v == "delete"@ {
            if a.len() == 0 {
                CmdView::MissingName(OpKind::Delete)
            } else {
                CmdView::Delete(a)
            }
        } else if v == "q"@ || v == "quit"@ {
            CmdView::Quit
        } else {
            CmdView::Unknown(v)
        }
    }
}

fn is_space_char(c: char) -> (r: bool)
    ensures
        r == is_space(c),
{
    c == ' ' || c == '\t' || c == '\n' || c == '\r' || c == '\x0c'
}

/// Equality of two string slices, stated over their character sequences.
pub fn str_eq(a: &str, b: &str) -> (r: bool)
    ensures
        r == (a@ == b@),
{
    let sa = String::from_str(a);
    let sb = String::from_str(b);
    sa == sb
}

/// `s` without leading or trailing whitespace.
pub fn trim(s: &str) -> (r: &str)
    ensures
        r@ == trim_spec(s@),
{
    let n = s.unicode_len();
    let mut i: usize = 0;
    while i < n && is_space_char(s.get_char(i))
        invariant
            0 <= i <= n,
            n == s@.len(),
            forall|j: int| 0 <= j < i ==> is_space(s@[j]),
        decreases n - i,
    {
        i = i + 1;
    }
    if i == n {
        proof {
            lemma_trim_start_at(s@, n as int);
            assert(s@.skip(n as int) =~= Seq::<char>::empty());
        }
        return s.substring_char(n, n);
    }
    let mut j: usize = n;
    while is_space_char(s.get_char(j - 1))
        invariant
            i < j <= n,
            n == s@.len(),
            i < n,
            !is_space(s@[i as int]),
            forall|k: int| j <= k < n ==> is_space(s@[k]),
        decreases j,
    {
        j = j - 1;
    }
    let r = s.substring_char(i, j);
    proof {
        lemma_trim_start_at(s@, i as int);
        let t1 = s@.skip(i as int);
        assert(forall|k: int|
            j - i <= k < t1.len() ==> t1[k] == s@[k + i] && is_space(s@[k + i]));
        assert(!is_space(t1[j - i - 1]));
        lemma_trim_end_at(t1, j - i);
        assert(t1.take(j - i) =~= s@.subrange(i as int, j as int));
    }
    r
}

/// Parse one line of input. The result is exactly `parse_spec` of the line;
/// in particular a line of nothing but whitespace parses to `Blank`, an
/// argument-taking verb with an empty trimmed argument parses to
/// `MissingName`, and `q` and `quit` parse to `Quit`.
pub fn parse_command(line: &str) -> (c: Command)
    ensures
        c@ == parse_spec(line@),
        all_space(line@) <==> c is Blank,
{
    proof {
        lemma_all_space_iff_trim_empty(line@);
    }
    let t = trim(line);
    let n = t.unicode_len();
    if n == 0 {
        return Command::Blank;
    }
    let mut k: usize = 0;
    while k < n && !is_space_char(t.get_char(k))
        invariant
            0 <= k <= n,
            n == t@.len(),
            forall|j: int| 0 <= j < k ==> !is_space(t@[j]),
        decreases n - k,
    {
        k = k + 1;
    }
    proof {
        lemma_verb_len_at(t@, k as int);
    }
    let verb = t.substring_char(0, k);
    proof {
        assert(verb@ =~= t@.take(k as int));
    }
    let tail = t.substring_char(k, n);
    let args = trim(tail);
    let na = args.unicode_len();
    if str_eq(verb, "show") {
        Command::Show
    } else if str_eq(verb, "file") {
        Command::File
    } else if str_eq(verb, "get") {
        if na == 0 {
            Command::MissingName(OpKind::Get)
        } else {
            Command::Get(String::from_str(args))
        }
    } else if str_eq(verb, "put") {
        if na == 0 {
            Command::MissingName(OpKind::Put)
        } else {
            Command::Put(String::from_str(args))
        }
    } else if str_eq(verb, "delete") {
        if na == 0 {
            Command::MissingName(OpKind::Delete)
        } else {
            Command::Delete(String::from_str(args))
        }
    } else if str_eq(verb, "q") || str_eq(verb, "quit") {
        Command::Quit
    } else {
        Command::Unknown(String::from_str(verb))
    }
}

proof fn lemma_verb_literal_facts()
    ensures
        "show"@.len() == 4,
        "show"@[0] == 's',
        "file"@.len() == 4,
        "file"@[0] == 'f',
        "get"@.len() == 3,
        "get"@[0] == 'g',
        "put"@.len() == 3,
        "put"@[0] == 'p',
        "delete"@.len() == 6,
        "q"@.len() == 1,
        "q"@[0] == 'q',
        "quit"@.len() == 4,
        "quit"@[0] == 'q',
{
    reveal_strlit("show");
    reveal_strlit("file");
    reveal_strlit("get");
    reveal_strlit("put");
    reveal_strlit("delete");
    reveal_strlit("q");
    reveal_strlit("quit");
}

/// A line of nothing but whitespace parses to a blank command, which
/// dispatches no operation, and only such a line does.
pub proof fn lemma_blank_line_no_dispatch(line: Seq<char>)
    ensures
        all_space(line) <==> parse_spec(line) is Blank,
{
    lemma_all_space_iff_trim_empty(line);
}

/// For `get`, `put` and `delete` with an empty trimmed argument, the line
/// parses to the corresponding missing-name diagnostic, so no request is
/// dispatched.
pub proof fn lemma_missing_name(line: Seq<char>)
    requires
        arg_of(line).len() == 0,
    ensures
        verb_of(line) == "get"@ ==> parse_spec(line) == CmdView::MissingName(OpKind::Get),
        verb_of(line) == "put"@ ==> parse_spec(line) == CmdView::MissingName(OpKind::Put),
        verb_of(line) == "delete"@ ==> parse_spec(line) == CmdView::MissingName(OpKind::Delete),
{
    lemma_verb_len_le(trim_spec(line));
    if trim_spec(line).len() == 0 {
        assert(verb_of(line) =~= Seq::<char>::empty());
    }
    lemma_verb_literal_facts();
}

/// `q` and `quit` both parse to the quit command, and any other verb that
/// names no operation parses to an unknown command, which leaves the loop
/// running.
pub proof fn lemma_quit_and_unknown(line: Seq<char>)
    ensures
        verb_of(line) == "q"@ || verb_of(line) == "quit"@ ==> parse_spec(line) == CmdView::Quit,
        (trim_spec(line).len() > 0 && verb_of(line) != "show"@ && verb_of(line) != "file"@
            && verb_of(line) != "get"@ && verb_of(line) != "put"@ && verb_of(line) != "delete"@
            && verb_of(line) != "q"@ && verb_of(line) != "quit"@) ==> parse_spec(line)
            == CmdView::Unknown(verb_of(line)),
{
    lemma_verb_len_le(trim_spec(line));
    if trim_spec(line).len() == 0 {
        assert(verb_of(line) =~= Seq::<char>::empty());
    }
    lemma_verb_literal_facts();
}

/// The interpreter's state: it keeps running until a quit command.
#[derive(Clone, Copy, PartialEq, Eq, Structural, Debug)]
pub enum LoopState {
    Running,
    Exiting,
}

/// The state transition of the command loop: only `Quit` ends it; every
/// other command, a blank line and an unknown verb included, leaves it
/// running.
pub fn next_state(c: &Command) -> (s: LoopState)
    ensures
        s is Exiting <==> c is Quit,
{
    match c {
        Command::Quit => LoopState::Exiting,
        _ => LoopState::Running,
    }
}

/// The diagnostic for an argument-taking verb with no argument.
pub open spec fn missing_name_msg_spec(k: OpKind) -> Seq<char> {
    match k {
        OpKind::Get => "Missing secret name to get"@,
        OpKind::Put => "Missing secret name to put"@,
        OpKind::Delete => "Missing secret name to delete"@,
    }
}

/// The diagnostic printed, before any request is sent, when `get`, `put`
/// or `delete` is given an empty trimmed argument.
pub fn missing_name_message(k: OpKind) -> (m: String)
    ensures
        m@ == missing_name_msg_spec(k),
{
    match k {
        OpKind::Get => String::from_str("Missing secret name to get"),
        OpKind::Put => String::from_str("Missing secret name to put"),
        OpKind::Delete => String::from_str("Missing secret name to delete"),
    }
}

/// The prompt written before each command line.
pub fn prompt() -> (p: String)
    ensures
        p@ == "cmcli> "@,
{
    String::from_str("cmcli> ")
}

/// The hint printed when a line holds nothing but whitespace.
pub fn blank_hint() -> (m: String)
    ensures
        m@ == "Enter a command, q for quit"@,
{
    String::from_str("Enter a command, q for quit")
}

/// The help text, line by line, as shown at startup and after an unknown
/// command.
pub fn help_lines() -> (r: Vec<String>)
    ensures
        r@.len() == 10,
        r@[0]@ == "Valid commands are:"@,
        r@[1]@ == "-------------------------------------------------------------------"@,
        r@[2]@ == "show                 | Show all secrets"@,
        r@[3]@ == "file                 | Show file secrets"@,
        r@[4]@ == "get <SECRET_NAME>    | Get the value of the secret name provided"@,
        r@[5]@ == "put <SECRET_NAME>    | Put a secret at the name provided,"@,
        r@[6]@ == "                     | you will be asked for the secrets contents"@,
        r@[7]@ == "delete <SECRET_NAME> | Delete the value of the secret name provided"@,
        r@[8]@ == "q | quit             | Quit the program"@,
        r@[9]@ == "-------------------------------------------------------------------"@,
{
    let mut r: Vec<String> = Vec::new();
    r.push(String::from_str("Valid commands are:"));
    r.push(String::from_str("-------------------------------------------------------------------"));
    r.push(String::from_str("show                 | Show all secrets"));
    r.push(String::from_str("file                 | Show file secrets"));
    r.push(String::from_str("get <SECRET_NAME>    | Get the value of the secret name provided"));
    r.push(String::from_str("put <SECRET_NAME>    | Put a secret at the name provided,"));
    r.push(String::from_str("                     | you will be asked for the secrets contents"));
    r.push(String::from_str("delete <SECRET_NAME> | Delete the value of the secret name provided"));
    r.push(String::from_str("q | quit             | Quit the program"));
    r.push(String::from_str("-------------------------------------------------------------------"));
    r
}

/// `s` with its first `pos` characters removed; empty when `s` has no
/// character at position `pos`.
pub open spec fn crop_spec(s: Seq<char>, pos: nat) -> Seq<char> {
    if pos < s.len() {
        s.skip(pos as int)
    } else {
        Seq::<char>::empty()
    }
}

/// Drop the first `pos` characters of `s`; the empty slice when fewer than
/// `pos + 1` characters remain.
pub fn crop_letters(s: &str, pos: usize) -> (r: &str)
    ensures
        r@ == crop_spec(s@, pos as nat),
{
    let n = s.unicode_len();
    if pos < n {
        let r = s.substring_char(pos, n);
        proof {
            assert(s@.subrange(pos as int, n as int) =~= s@.skip(pos as int));
        }
        r
    } else {
        let r = s.substring_char(n, n);
        proof {
            assert(s@.subrange(n as int, n as int) =~= Seq::<char>::empty());
        }
        r
    }
}

} // verus!

