//! The rules of the ledger: which checks a deposit, a withdrawal, a transaction and a
//! refund pass, in which order, and what they record.
//!
//! Amounts and balances are floats, kept by the program around this library with the
//! database; it hands the outcome of each comparison over as a `bool`.

use vstd::prelude::*;

verus! {

broadcast use vstd::string::group_string_axioms;

/// The user that stands for the outside world (deposits come from it, payments go to it).
pub open spec fn null_user() -> Seq<char> {
    seq!['N', 'U', 'L', 'L']
}

/// Whether a user name is the one of the outside world.
pub fn is_null_user(name: &str) -> (b: bool)
    ensures
        b == (name@ == null_user()),
{
    if name.unicode_len() != 4 {
        return false;
    }
    let b = name.get_char(0) == 'N' && name.get_char(1) == 'U' && name.get_char(2) == 'L'
        && name.get_char(3) == 'L';
    proof {
        let n = null_user();
        assert(n[0] == 'N' && n[1] == 'U' && n[2] == 'L' && n[3] == 'L');
        if b {
            assert(name@ =~= n);
        }
    }
    b
}

/// A decimal digit.
pub open spec fn digit_char(d: int) -> char {
    seq!['0', '1', '2', '3', '4', '5', '6', '7', '8', '9'][d]
}

/// The decimal digits of a natural number, most significant first.
pub open spec fn digits(m: nat) -> Seq<char>
    decreases m,
{
    if m < 10 {
        seq![digit_char(m as int)]
    } else {
        digits(m / 10).push(digit_char((m % 10) as int))
    }
}

/// An integer written in decimal, with a leading `-` where it is negative.
pub open spec fn decimal(n: int) -> Seq<char> {
    if n < 0 {
        seq!['-'] + digits((-n) as nat)
    } else {
        digits(n as nat)
    }
}

/// A one-character string of a decimal digit.
fn digit_str(d: u64) -> (s: &'static str)
    requires
        d < 10,
    ensures
        s@ == seq![digit_char(d as int)],
{
    proof {
        reveal_strlit("0");
        reveal_strlit("1");
        reveal_strlit("2");
        reveal_strlit("3");
        reveal_strlit("4");
        reveal_strlit("5");
        reveal_strlit("6");
        reveal_strlit("7");
        reveal_strlit("8");
        reveal_strlit("9");
    }
    if d == 0 {
        "0"
    } else if d == 1 {
        "1"
    } else if d == 2 {
        "2"
    } else if d == 3 {
        "3"
    } else if d == 4 {
        "4"
    } else if d == 5 {
        "5"
    } else if d == 6 {
        "6"
    } else if d == 7 {
        "7"
    } else if d == 8 {
        "8"
    } else {
        "9"
    }
}

/// Appends the decimal digits of `m`.
fn push_digits(out: &mut String, m: u64)
    ensures
        final(out)@ == old(out)@ + digits(m as nat),
    decreases m,
{
    if m < 10 {
        out.append(digit_str(m));
    } else {
        push_digits(out, m / 10);
        out.append(digit_str(m % 10));
        assert(old(out)@ + digits(m as nat) =~= old(out)@ + digits((m / 10) as nat) + seq![
            digit_char((m % 10) as int),
        ]);
    }
}

/// An integer written in decimal.
pub fn decimal_string(n: i64) -> (s: String)
    ensures
        s@ == decimal(n as int),
{
    let mut s = String::new();
    if n < 0 {
        proof {
            reveal_strlit("-");
        }
        s.append("-");
        let m: u64 = if n == i64::MIN {
            9223372036854775808u64
        } else {
            (-n) as u64
        };
        push_digits(&mut s, m);
    } else {
        push_digits(&mut s, n as u64);
    }
    s
}

/// The message recorded with the refund of the transaction made at `transac_time` by
/// node `node`: `Refund transaction <node>-<time>`.
pub open spec fn refund_text(node: Seq<char>, transac_time: int) -> Seq<char> {
    "Refund transaction "@ + node + seq!['-'] + decimal(transac_time)
}

/// The message recorded with a refund.
pub fn refund_message(node: &str, transac_time: i64) -> (m: String)
    ensures
        m@ == refund_text(node@, transac_time as int),
{
    proof {
        reveal_strlit("-");
    }
    let mut m = String::from_str("Refund transaction ");
    m.append(node);
    m.append("-");
    let t = decimal_string(transac_time);
    m.append(t.as_str());
    m
}

/// The prefix that marks the message of a refund.
pub open spec fn refund_prefix() -> Seq<char> {
    "Refund transaction"@
}

/// Whether a transaction message marks a refund: it starts with `Refund transaction`.
pub fn is_refund_message(msg: &str) -> (b: bool)
    ensures
        b == (msg@.len() >= refund_prefix().len() && msg@.subrange(0, refund_prefix().len() as int)
            == refund_prefix()),
{
    let prefix = "Refund transaction";
    proof {
        reveal_strlit("Refund transaction");
    }
    let lp = prefix.unicode_len();
    let lm = msg.unicode_len();
    if lm < lp {
        return false;
    }
    let mut i: usize = 0;
    while i < lp
        invariant
            lp == prefix@.len(),
            lp <= lm,
            lm == msg@.len(),
            prefix@ == refund_prefix(),
            i <= lp,
            forall|k: int| 0 <= k < i ==> msg@[k] == prefix@[k],
        decreases lp - i,
    {
        if msg.get_char(i) != prefix.get_char(i) {
            assert(msg@.subrange(0, lp as int)[i as int] != prefix@[i as int]);
            return false;
        }
        i += 1;
    }
    assert(msg@.subrange(0, lp as int) =~= prefix@);
    true
}

/// A refund is itself marked as a refund, so that it cannot be refunded in turn.
pub proof fn lemma_refund_marked(node: Seq<char>, transac_time: int)
    ensures
        refund_text(node, transac_time).len() >= refund_prefix().len(),
        refund_text(node, transac_time).subrange(0, refund_prefix().len() as int) == refund_prefix(),
{
    reveal_strlit("Refund transaction ");
    reveal_strlit("Refund transaction");
    let t = refund_text(node, transac_time);
    assert(t.subrange(0, refund_prefix().len() as int) =~= refund_prefix());
}

/// Why a deposit is refused.
#[derive(Debug, Clone, Copy, PartialEq, Eq, Structural)]
pub enum DepositError {
    /// The user does not exist.
    UnknownUser,
    /// The amount is negative.
    NegativeAmount,
}

/// The checks of a deposit, in order: the user exists, the amount is not negative.
pub fn check_deposit(user_exists: bool, amount_negative: bool) -> (r: Result<(), DepositError>)
    ensures
        !user_exists ==> r == Err::<(), DepositError>(DepositError::UnknownUser),
        user_exists && amount_negative ==> r == Err::<(), DepositError>(DepositError::NegativeAmount),
        user_exists && !amount_negative ==> r is Ok,
{
    if !user_exists {
        Err(DepositError::UnknownUser)
    } else if amount_negative {
        Err(DepositError::NegativeAmount)
    } else {
        Ok(())
    }
}

/// Why a withdrawal is refused.
#[derive(Debug, Clone, Copy, PartialEq, Eq, Structural)]
pub enum WithdrawError {
    /// The amount is negative.
    NegativeAmount,
    /// The user does not exist.
    UnknownUser,
    /// The balance is below the amount.
    InsufficientFunds,
}

/// The checks of a withdrawal, in order: the amount is not negative, the user exists,
/// the balance covers the amount.
pub fn check_withdraw(amount_negative: bool, user_exists: bool, funds_cover: bool) -> (r: Result<(), WithdrawError>)
    ensures
        amount_negative ==> r == Err::<(), WithdrawError>(WithdrawError::NegativeAmount),
        !amount_negative && !user_exists ==> r == Err::<(), WithdrawError>(WithdrawError::UnknownUser),
        !amount_negative && user_exists && !funds_cover ==> r == Err::<(), WithdrawError>(
            WithdrawError::InsufficientFunds,
        ),
        !amount_negative && user_exists && funds_cover ==> r is Ok,
{
    if amount_negative {
        Err(WithdrawError::NegativeAmount)
    } else if !user_exists {
        Err(WithdrawError::UnknownUser)
    } else if !funds_cover {
        Err(WithdrawError::InsufficientFunds)
    } else {
        Ok(())
    }
}

/// What recording a transaction involves besides its row: the users to create where
/// they are missing and whose balance to recompute (never the outside world).
#[derive(Debug, Clone, Copy, PartialEq, Eq, Structural)]
pub struct TransactionPlan {
    /// Create the source user where it is missing, and recompute its balance.
    pub touch_from: bool,
    /// Create the destination user where it is missing, and recompute its balance.
    pub touch_to: bool,
}

/// Checks a transaction: a source other than the outside world must have a balance that
/// covers the amount (`funds_cover`, which is not looked at for the outside world).
/// Gives back which users the transaction then touches; `None` for insufficient funds.
pub fn plan_transaction(from_user: &str, to_user: &str, funds_cover: bool) -> (r: Option<TransactionPlan>)
    ensures
        from_user@ != null_user() && !funds_cover ==> r is None,
        !(from_user@ != null_user() && !funds_cover) ==> r == Some(
            TransactionPlan { touch_from: from_user@ != null_user(), touch_to: to_user@ != null_user() },
        ),
{
    let from_null = is_null_user(from_user);
    if !from_null && !funds_cover {
        return None;
    }
    Some(TransactionPlan { touch_from: !from_null, touch_to: !is_null_user(to_user) })
}

/// Why a refund is refused.
#[derive(Debug, Clone, Copy, PartialEq, Eq, Structural)]
pub enum RefundError {
    /// No transaction was made at that time by that node.
    NotFound,
    /// The receiver of the transaction cannot give the amount back.
    InsufficientFunds,
    /// The transaction is itself a refund.
    IsRefund,
    /// The transaction was already refunded.
    AlreadyRefunded,
}

/// The refund to record: money goes back from the receiver to the sender, with the
/// refund message.
#[derive(Debug, Clone)]
pub struct RefundPlan {
    /// Who gives the money back (the receiver of the refunded transaction).
    pub from_user: String,
    /// Who gets it back (the sender of the refunded transaction).
    pub to_user: String,
    /// The message of the refund.
    pub message: String,
}

/// The transaction to refund, as far as the checks need it.
#[derive(Debug, Clone)]
pub struct RefundedTx {
    /// Its sender.
    pub from_user: String,
    /// Its receiver.
    pub to_user: String,
    /// Its message, if it has one.
    pub optional_msg: Option<String>,
}

/// The checks of a refund of the transaction made at `transac_time` by `node`, in
/// order: it exists, its receiver's balance covers its amount, it is not itself a
/// refund, it was not refunded already (no transaction holds its refund message).
pub fn check_refund(
    tx: Option<RefundedTx>,
    funds_cover: bool,
    already_refunded: bool,
    node: &str,
    transac_time: i64,
) -> (r: Result<RefundPlan, RefundError>)
    ensures
        tx is None ==> r matches Err(RefundError::NotFound),
        tx matches Some(t) ==> {
            let marked = (t.optional_msg matches Some(m) && m@.len() >= refund_prefix().len()
                && m@.subrange(0, refund_prefix().len() as int) == refund_prefix());
            &&& !funds_cover ==> (r matches Err(RefundError::InsufficientFunds))
            &&& funds_cover && marked ==> (r matches Err(RefundError::IsRefund))
            &&& funds_cover && !marked && already_refunded ==> (r matches Err(
                RefundError::AlreadyRefunded,
            ))
            &&& funds_cover && !marked && !already_refunded ==> (r matches Ok(p) && p.from_user@
                == t.to_user@ && p.to_user@ == t.from_user@ && p.message@ == refund_text(
                node@,
                transac_time as int,
            ))
        },
{
    let t = match tx {
        Some(t) => t,
        None => {
            return Err(RefundError::NotFound);
        },
    };
    if !funds_cover {
        return Err(RefundError::InsufficientFunds);
    }
    let marked = match &t.optional_msg {
        Some(m) => is_refund_message(m.as_str()),
        None => false,
    };
    if marked {
        return Err(RefundError::IsRefund);
    }
    if already_refunded {
        return Err(RefundError::AlreadyRefunded);
    }
    Ok(RefundPlan { from_user: t.to_user, to_user: t.from_user, message: refund_message(node, transac_time) })
}

} // verus!
