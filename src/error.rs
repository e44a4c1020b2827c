use vstd::prelude::*;
use vstd::std_specs::cmp::PartialEqSpec;
use vstd::string::to_string_from_display_ensures;
use vstd::string::StringExecFns;

verus! {

/// A failed collection into an array of length `N`: the payload of the first
/// absent element (`None` when the source simply ran out), and the index at
/// which collection stopped.
#[derive(Clone, Copy, Hash, Debug)]
pub struct Error<const N: usize, E> {
    /// Payload of the element that failed; `None` when the source ran out.
    pub error: Option<E>,
    /// Index at which collection stopped.
    pub at: usize,
}

impl<const N: usize, E> Error<N, E> {
    /// The same payload and index, declared against length `M`.
    pub open spec fn with_length<const M: usize>(self) -> Error<M, E> {
        Error { error: self.error, at: self.at }
    }
}

impl<const N: usize, const O: usize, E: PartialEq> PartialEq<Error<O, E>> for Error<N, E> {
    fn eq(&self, other: &Error<O, E>) -> (r: bool) {
        let same_error = self.error == other.error;
        let same_at = self.at == other.at;
        same_error && same_at
    }
}

impl<const N: usize, const O: usize, E: PartialEq> vstd::std_specs::cmp::PartialEqSpecImpl<Error<O, E>> for Error<N, E> {
    open spec fn obeys_eq_spec() -> bool {
        <E as PartialEqSpec>::obeys_eq_spec()
    }

    open spec fn eq_spec(&self, other: &Error<O, E>) -> bool {
        <Option<E> as PartialEqSpec>::eq_spec(&self.error, &other.error) && self.at == other.at
    }
}

/// The character of decimal digit `d`.
pub open spec fn digit_char(d: nat) -> char {
    seq!['0', '1', '2', '3', '4', '5', '6', '7', '8', '9'][d as int]
}

/// The decimal text of `n`, without leading zeros.
pub open spec fn decimal(n: nat) -> Seq<char>
    decreases n,
{
    if n < 10 {
        seq![digit_char(n)]
    } else {
        decimal(n / 10).push(digit_char(n % 10))
    }
}

/// The text of decimal digit `d`.
fn digit_text(d: usize) -> (r: &'static str)
    requires
        d < 10,
    ensures
        r@ == seq![digit_char(d as nat)],
{
    proof {
        reveal_strlit("0");
        reveal_strlit("1");
        reveal_strlit("2");
        reveal_strlit("3");
        reveal_strlit("4");
        reveal_strlit("5");
        reveal_strlit("6");
        reveal_strlit("7");
        reveal_strlit("8");
        reveal_strlit("9");
    }
    match d {
        0 => "0",
        1 => "1",
        2 => "2",
        3 => "3",
        4 => "4",
        5 => "5",
        6 => "6",
        7 => "7",
        8 => "8",
        _ => "9",
    }
}

/// Appends the decimal text of `n` to `s`.
fn append_decimal(s: &mut String, n: usize)
    ensures
        final(s)@ == old(s)@ + decimal(n as nat),
    decreases n,
{
    let ghost start = s@;
    if n >= 10 {
        append_decimal(s, n / 10);
    }
    s.append(digit_text(n % 10));
    proof {
        if n >= 10 {
            assert(s@ =~= start + decimal(n as nat));
        } else {
            assert(s@ =~= start + decimal(n as nat));
        }
    }
}

/// Relies on the `Debug` formatting of the payload (`format!("{x:?}")`),
/// of which nothing is assumed.
#[verifier::external_body]
fn debug_text<E: core::fmt::Debug>(x: &E) -> (r: String) {
    format!("{x:?}")
}

impl<const N: usize, E> Error<N, E> {
    /// Human-readable text: the payload's `Display` text followed by
    /// `" @ {at} of {N}"`, or, with no payload, a sentence saying that the
    /// array of length `N` could not be filled and how many elements there were.
    pub fn describe(&self) -> (r: String) where E: core::fmt::Display
        ensures
            self.error matches Some(x) ==> exists|t: String|
                #[trigger] to_string_from_display_ensures::<E>(&x, t) && r@ == t@ + " @ "@
                    + decimal(self.at as nat) + " of "@ + decimal(N as nat),
            self.error is None ==> r@ == "couldnt fill array of length "@ + decimal(N as nat)
                + ", only had "@ + decimal(self.at as nat) + " elements."@,
    {
        match &self.error {
            Some(x) => {
                let mut s = x.to_string();
                let ghost t = s;
                s.append(" @ ");
                append_decimal(&mut s, self.at);
                s.append(" of ");
                append_decimal(&mut s, N);
                assert(to_string_from_display_ensures::<E>(x, t));
                s
            },
            None => {
                let mut s = String::from_str("couldnt fill array of length ");
                append_decimal(&mut s, N);
                s.append(", only had ");
                append_decimal(&mut s, self.at);
                s.append(" elements.");
                s
            },
        }
    }

    /// The payload as the underlying cause of this error, if there is one.
    pub fn source(&self) -> (r: Option<&E>)
        ensures
            r is Some <==> self.error is Some,
            r matches Some(c) ==> self.error == Some(*c),
    {
        match &self.error {
            Some(x) => Some(x),
            None => None,
        }
    }

    /// Debug text: the payload's `Debug` text followed by `" @ {at} of {N}"`,
    /// or, with no payload, `"Size(wanted {N}, had {at})"`.
    pub fn describe_debug(&self) -> (r: String) where E: core::fmt::Debug
        ensures
            self.error is Some ==> exists|t: Seq<char>|
                r@ == t + " @ "@ + decimal(self.at as nat) + " of "@ + decimal(N as nat),
            self.error is None ==> r@ == "Size(wanted "@ + decimal(N as nat) + ", had "@
                + decimal(self.at as nat) + ")"@,
    {
        match &self.error {
            Some(x) => {
                let mut s = debug_text(x);
                let ghost t = s@;
                s.append(" @ ");
                append_decimal(&mut s, self.at);
                s.append(" of ");
                append_decimal(&mut s, N);
                assert(s@ == t + " @ "@ + decimal(self.at as nat) + " of "@ + decimal(N as nat));
                s
            },
            None => {
                let mut s = String::from_str("Size(wanted ");
                append_decimal(&mut s, N);
                s.append(", had ");
                append_decimal(&mut s, self.at);
                s.append(")");
                s
            },
        }
    }
}

/// Whether two errors compare equal does not depend on the lengths they were
/// declared against: equal payloads at the same index compare equal, and
/// declaring the right-hand error against any other length changes nothing.
pub proof fn lemma_eq_ignores_length<const N: usize, const O: usize, const M: usize, E: PartialEq>(
    a: Error<N, E>,
    b: Error<O, E>,
)
    ensures
        <Option<E> as PartialEqSpec>::eq_spec(&a.error, &b.error) && a.at == b.at ==> a.eq_spec(&b),
        a.eq_spec(&b) == a.eq_spec(&b.with_length::<M>()),
{
}

} // verus!
