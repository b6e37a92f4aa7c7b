//! Commands of the command-line interface.

use vstd::prelude::*;

verus! {

broadcast use vstd::string::group_string_axioms;

/// Available commands.
#[derive(Debug, Clone, PartialEq)]
pub enum Command {
    /// Create a user account.
    CreateUser,
    /// List all user accounts.
    UserAccounts,
    /// Show the transactions of a user.
    PrintUserTransactions,
    /// Show all transactions.
    PrintTransactions,
    /// Deposit money into an account.
    Deposit,
    /// Withdraw money from an account.
    Withdraw,
    /// Transfer money between accounts.
    Transfer,
    /// Make a payment.
    Pay,
    /// Refund a transaction.
    Refund,
    /// Show the help.
    Help,
    /// Show system information.
    Info,
    /// An unknown command, with what was typed.
    Unknown(String),
    /// Reading the input failed.
    Error(String),
    /// Start a snapshot.
    Snapshot,
}

/// Whether a character is white space (the Unicode `White_Space` property, as
/// `char::is_whitespace` has it).
pub open spec fn is_ws(c: char) -> bool {
    let u = c as u32;
    (0x09 <= u <= 0x0d) || u == 0x20 || u == 0x85 || u == 0xa0 || u == 0x1680 || (0x2000 <= u
        <= 0x200a) || u == 0x2028 || u == 0x2029 || u == 0x202f || u == 0x205f || u == 0x3000
}

/// `t` is `s` without its leading and trailing white space.
pub open spec fn is_trim_of(t: Seq<char>, s: Seq<char>) -> bool {
    exists|i: int, j: int|
        #![trigger s.subrange(i, j)]
        0 <= i <= j <= s.len() && t == s.subrange(i, j) && (forall|k: int|
            0 <= k < i ==> is_ws(#[trigger] s[k])) && (forall|k: int|
            j <= k < s.len() ==> is_ws(#[trigger] s[k])) && (i < j ==> !is_ws(s[i]) && !is_ws(
            s[j - 1],
        ))
}

/// A string has one trimmed form.
pub proof fn lemma_trim_unique(a: Seq<char>, b: Seq<char>, s: Seq<char>)
    requires
        is_trim_of(a, s),
        is_trim_of(b, s),
    ensures
        a == b,
{
    let (i1, j1) = choose|i: int, j: int|
        #![trigger s.subrange(i, j)]
        0 <= i <= j <= s.len() && a == s.subrange(i, j) && (forall|k: int|
            0 <= k < i ==> is_ws(#[trigger] s[k])) && (forall|k: int|
            j <= k < s.len() ==> is_ws(#[trigger] s[k])) && (i < j ==> !is_ws(s[i]) && !is_ws(
            s[j - 1],
        ));
    let (i2, j2) = choose|i: int, j: int|
        #![trigger s.subrange(i, j)]
        0 <= i <= j <= s.len() && b == s.subrange(i, j) && (forall|k: int|
            0 <= k < i ==> is_ws(#[trigger] s[k])) && (forall|k: int|
            j <= k < s.len() ==> is_ws(#[trigger] s[k])) && (i < j ==> !is_ws(s[i]) && !is_ws(
            s[j - 1],
        ));
    if i1 < j1 && i2 < j2 {
        if i1 < i2 {
            assert(is_ws(s[i1]));
        }
        if i2 < i1 {
            assert(is_ws(s[i2]));
        }
        if j1 < j2 {
            assert(is_ws(s[j2 - 1]));
        }
        if j2 < j1 {
            assert(is_ws(s[j1 - 1]));
        }
    } else if i1 < j1 {
        assert(i2 == j2);
        if i1 < i2 {
            assert(is_ws(s[i1]));
        } else {
            assert(is_ws(s[i1]));
        }
    } else if i2 < j2 {
        if i2 < i1 {
            assert(is_ws(s[i2]));
        } else {
            assert(is_ws(s[i2]));
        }
    } else {
        assert(a =~= b);
    }
}

/// White space is exactly the 25 code points of the Unicode `White_Space` property:
/// the controls U+0009 (tab) to U+000D (carriage return), the space, U+0085, the
/// no-break space U+00A0, U+1680, U+2000 to U+200A, U+2028, U+2029, U+202F, U+205F and
/// U+3000.
pub proof fn lemma_white_space_points(c: char)
    ensures
        is_ws(c) <==> ({
            let u = c as u32;
            u == 9 || u == 10 || u == 11 || u == 12 || u == 13 || u == 32 || u == 133 || u == 160
                || u == 5760 || u == 8192 || u == 8193 || u == 8194 || u == 8195 || u == 8196 || u
                == 8197 || u == 8198 || u == 8199 || u == 8200 || u == 8201 || u == 8202 || u == 8232
                || u == 8233 || u == 8239 || u == 8287 || u == 12288
        }),
        is_ws('\r'),
        is_ws('\n'),
        is_ws('\t'),
        is_ws(' '),
{
}

/// A line ending (carriage return and line feed, or a bare line feed) never stays at
/// the end of a trimmed line.
pub proof fn lemma_trim_drops_line_ends(s: Seq<char>, t: Seq<char>)
    requires
        is_trim_of(t, s),
    ensures
        t.len() > 0 ==> t.last() != '\r' && t.last() != '\n' && t[0] != '\r' && t[0] != '\n',
{
    let (i, j) = choose|i: int, j: int|
        #![trigger s.subrange(i, j)]
        0 <= i <= j <= s.len() && t == s.subrange(i, j) && (forall|k: int|
            0 <= k < i ==> is_ws(#[trigger] s[k])) && (forall|k: int|
            j <= k < s.len() ==> is_ws(#[trigger] s[k])) && (i < j ==> !is_ws(s[i]) && !is_ws(
            s[j - 1],
        ));
    if t.len() > 0 {
        assert(t.last() == s[j - 1]);
        assert(t[0] == s[i]);
        assert(is_ws('\r') && is_ws('\n'));
    }
}

/// The string without its leading and trailing white space.
pub open spec fn trimmed(s: Seq<char>) -> Seq<char> {
    choose|t: Seq<char>| is_trim_of(t, s)
}

/// Whether a character is white space.
fn char_is_ws(c: char) -> (b: bool)
    ensures
        b == is_ws(c),
{
    let u = c as u32;
    (0x09 <= u && u <= 0x0d) || u == 0x20 || u == 0x85 || u == 0xa0 || u == 0x1680 || (0x2000 <= u
        && u <= 0x200a) || u == 0x2028 || u == 0x2029 || u == 0x202f || u == 0x205f || u == 0x3000
}

/// The string without its leading and trailing white space.
pub fn trim(s: &str) -> (t: String)
    ensures
        is_trim_of(t@, s@),
        t@ == trimmed(s@),
{
    let n = s.unicode_len();
    let mut i: usize = 0;
    while i < n && char_is_ws(s.get_char(i))
        invariant
            n == s@.len(),
            i <= n,
            forall|k: int| 0 <= k < i ==> is_ws(#[trigger] s@[k]),
        decreases n - i,
    {
        i += 1;
    }
    let mut j: usize = n;
    while j > i && char_is_ws(s.get_char(j - 1))
        invariant
            n == s@.len(),
            i <= j <= n,
            forall|k: int| j <= k < n ==> is_ws(#[trigger] s@[k]),
            i < n ==> !is_ws(s@[i as int]),
        decreases j,
    {
        j -= 1;
    }
    let t = s.substring_char(i, j).to_string();
    proof {
        assert(is_trim_of(t@, s@)) by {
            assert(t@ == s@.subrange(i as int, j as int));
        }
        let w = trimmed(s@);
        lemma_trim_unique(w, t@, s@);
    }
    t
}

/// The command that a trimmed line names.
pub open spec fn command_named(r: Command, t: Seq<char>) -> bool {
    if t == "/create_user"@ {
        r == Command::CreateUser
    } else if t == "/user_accounts"@ {
        r == Command::UserAccounts
    } else if t == "/print_user_tsx"@ {
        r == Command::PrintUserTransactions
    } else if t == "/print_tsx"@ {
        r == Command::PrintTransactions
    } else if t == "/deposit"@ {
        r == Command::Deposit
    } else if t == "/withdraw"@ {
        r == Command::Withdraw
    } else if t == "/transfer"@ {
        r == Command::Transfer
    } else if t == "/pay"@ {
        r == Command::Pay
    } else if t == "/refund"@ {
        r == Command::Refund
    } else if t == "/help"@ {
        r == Command::Help
    } else if t == "/info"@ {
        r == Command::Info
    } else if t == "/start_snapshot"@ {
        r == Command::Snapshot
    } else {
        r matches Command::Unknown(u) && u@ == t
    }
}

/// Whether two strings hold the same characters.
fn same_text(a: &String, b: &str) -> (r: bool)
    ensures
        r == (a@ == b@),
{
    let c = b.to_string();
    *a == c
}

/// Turns a line read from the input into a command. A line is trimmed and then names
/// a command, or is an unknown one; the end of the input gives an unknown command,
/// and a failed read gives an error.
pub fn parse_command(line: Result<Option<String>, String>) -> (c: Command)
    ensures
        match line {
            Ok(Some(cmd)) => command_named(c, trimmed(cmd@)),
            Ok(None) => c matches Command::Unknown(u) && u@ == "Aucun input"@,
            Err(_) => c matches Command::Error(u) && u@ == "Erreur de lecture stdin"@,
        },
{
    match line {
        Ok(Some(cmd)) => {
            let t = trim(cmd.as_str());
            if same_text(&t, "/create_user") {
                Command::CreateUser
            } else if same_text(&t, "/user_accounts") {
                Command::UserAccounts
            } else if same_text(&t, "/print_user_tsx") {
                Command::PrintUserTransactions
            } else if same_text(&t, "/print_tsx") {
                Command::PrintTransactions
            } else if same_text(&t, "/deposit") {
                Command::Deposit
            } else if same_text(&t, "/withdraw") {
                Command::Withdraw
            } else if same_text(&t, "/transfer") {
                Command::Transfer
            } else if same_text(&t, "/pay") {
                Command::Pay
            } else if same_text(&t, "/refund") {
                Command::Refund
            } else if same_text(&t, "/help") {
                Command::Help
            } else if same_text(&t, "/info") {
                Command::Info
            } else if same_text(&t, "/start_snapshot") {
                Command::Snapshot
            } else {
                Command::Unknown(t)
            }
        },
        Ok(None) => Command::Unknown("Aucun input".to_string()),
        Err(_) => Command::Error("Erreur de lecture stdin".to_string()),
    }
}

} // verus!
