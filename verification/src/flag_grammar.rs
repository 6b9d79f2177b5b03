use crate::fallible::{lemma_try_all_ok, lemma_try_all_prefix_err, lemma_try_all_step, try_all};
use crate::zxc_command_defs::{ArgumentKind, ArgumentType, FlagKind, FlagType, ValidationErrorKind};
use vstd::prelude::*;

verus! {

/// The flag starts with the long prefix, "--".
pub open spec fn has_long_prefix(flag: Seq<char>) -> bool {
    flag.len() >= 2 && flag[0] == '-' && flag[1] == '-'
}

/// The flag starts with the short prefix, "-".
pub open spec fn has_short_prefix(flag: Seq<char>) -> bool {
    flag.len() >= 1 && flag[0] == '-'
}

/// What one raw flag string declares: "--" and a non-empty remainder a long
/// flag, "-" and exactly one more character a short flag, a string without
/// a leading '-' a positional one. Lengths count characters.
pub open spec fn classify(flag: Seq<char>) -> Result<ArgumentKind, ValidationErrorKind> {
    if has_long_prefix(flag) {
        if flag.len() == 2 {
            Err(ValidationErrorKind::MalformedLongFlag)
        } else {
            Ok(ArgumentKind::Named(FlagKind::Long(flag.skip(2))))
        }
    } else if has_short_prefix(flag) {
        if flag.len() == 2 {
            Ok(ArgumentKind::Named(FlagKind::Short(flag[1])))
        } else {
            Err(ValidationErrorKind::MalformedShortFlag)
        }
    } else {
        Ok(ArgumentKind::Positional)
    }
}

/// The kinds of all the flags, or the fault of the first malformed one.
pub open spec fn classify_all(flags: Seq<Seq<char>>) -> Result<
    Seq<ArgumentKind>,
    ValidationErrorKind,
> {
    try_all(flags, |flag: Seq<char>| classify(flag))
}

/// The kind is a short flag.
pub open spec fn is_short(kind: ArgumentKind) -> bool {
    kind matches ArgumentKind::Named(FlagKind::Short(_))
}

/// The kind is a long flag.
pub open spec fn is_long(kind: ArgumentKind) -> bool {
    kind matches ArgumentKind::Named(FlagKind::Long(_))
}

/// The kind is positional.
pub open spec fn is_positional(kind: ArgumentKind) -> bool {
    kind is Positional
}

/// How many of the kinds satisfy `of`.
pub open spec fn count(kinds: Seq<ArgumentKind>, of: spec_fn(ArgumentKind) -> bool) -> nat
    decreases kinds.len(),
{
    if kinds.len() == 0 {
        0
    } else {
        count(kinds.drop_last(), of) + if of(kinds.last()) {
            1nat
        } else {
            0nat
        }
    }
}

/// How many of the kinds are short flags.
pub open spec fn count_short(kinds: Seq<ArgumentKind>) -> nat {
    count(kinds, |kind: ArgumentKind| is_short(kind))
}

/// How many of the kinds are long flags.
pub open spec fn count_long(kinds: Seq<ArgumentKind>) -> nat {
    count(kinds, |kind: ArgumentKind| is_long(kind))
}

/// How many of the kinds are positional.
pub open spec fn count_positional(kinds: Seq<ArgumentKind>) -> nat {
    count(kinds, |kind: ArgumentKind| is_positional(kind))
}

/// The first rule that the kinds of one argument break, if they break any:
/// one or two flags; positional never beside named; at most one positional,
/// one short and one long.
pub open spec fn violation(kinds: Seq<ArgumentKind>) -> Option<ValidationErrorKind> {
    if kinds.len() == 0 {
        Some(ValidationErrorKind::NoFlags)
    } else if kinds.len() > 2 {
        Some(ValidationErrorKind::TooManyFlags)
    } else if count_positional(kinds) > 0 && (count_short(kinds) > 0 || count_long(kinds) > 0) {
        Some(ValidationErrorKind::PositionalWithNamed)
    } else if count_positional(kinds) > 1 {
        Some(ValidationErrorKind::DuplicatePositional)
    } else if count_short(kinds) > 1 {
        Some(ValidationErrorKind::DuplicateShortFlag)
    } else if count_long(kinds) > 1 {
        Some(ValidationErrorKind::DuplicateLongFlag)
    } else {
        None
    }
}

/// The kinds that an argument's raw flags declare, or the first rule they
/// break: a malformed flag comes before any rule on the list as a whole.
pub open spec fn validate(flags: Seq<Seq<char>>) -> Result<Seq<ArgumentKind>, ValidationErrorKind> {
    match classify_all(flags) {
        Err(kind) => Err(kind),
        Ok(kinds) => match violation(kinds) {
            Some(kind) => Err(kind),
            None => Ok(kinds),
        },
    }
}

/// "--" and a non-empty remainder is the long flag of that remainder.
pub proof fn lemma_long_flag(remainder: Seq<char>)
    requires
        remainder.len() > 0,
    ensures
        classify(seq!['-', '-'] + remainder) == Ok::<ArgumentKind, ValidationErrorKind>(
            ArgumentKind::Named(FlagKind::Long(remainder)),
        ),
{
    let flag = seq!['-', '-'] + remainder;
    assert(flag.skip(2) =~= remainder);
}

/// A flag that starts with "-" but not with "--" is a short flag where it is
/// two characters long, and malformed at any other length.
pub proof fn lemma_short_flag(flag: Seq<char>)
    requires
        has_short_prefix(flag),
        !has_long_prefix(flag),
    ensures
        flag.len() == 2 ==> classify(flag) == Ok::<ArgumentKind, ValidationErrorKind>(
            ArgumentKind::Named(FlagKind::Short(flag[1])),
        ),
        flag.len() != 2 ==> classify(flag) == Err::<ArgumentKind, ValidationErrorKind>(
            ValidationErrorKind::MalformedShortFlag,
        ),
{
}

/// One kind that satisfies `of` makes the count at least one.
pub proof fn lemma_count_one(kinds: Seq<ArgumentKind>, of: spec_fn(ArgumentKind) -> bool, i: int)
    requires
        0 <= i < kinds.len(),
        of(kinds[i]),
    ensures
        count(kinds, of) >= 1,
    decreases kinds.len(),
{
    if i < kinds.len() - 1 {
        assert(kinds.drop_last()[i] == kinds[i]);
        lemma_count_one(kinds.drop_last(), of, i);
    }
}

/// Two kinds that satisfy `of` make the count at least two.
pub proof fn lemma_count_two(
    kinds: Seq<ArgumentKind>,
    of: spec_fn(ArgumentKind) -> bool,
    i: int,
    j: int,
)
    requires
        0 <= i < j < kinds.len(),
        of(kinds[i]),
        of(kinds[j]),
    ensures
        count(kinds, of) >= 2,
    decreases kinds.len(),
{
    assert(kinds.drop_last()[i] == kinds[i]);
    if j < kinds.len() - 1 {
        assert(kinds.drop_last()[j] == kinds[j]);
        lemma_count_two(kinds.drop_last(), of, i, j);
    } else {
        lemma_count_one(kinds.drop_last(), of, i);
    }
}

/// A flag list that holds a positional flag and a named one is rejected.
pub proof fn lemma_positional_with_named_fails(flags: Seq<Seq<char>>, i: int, j: int)
    requires
        0 <= i < flags.len(),
        0 <= j < flags.len(),
        classify(flags[i]) == Ok::<ArgumentKind, ValidationErrorKind>(ArgumentKind::Positional),
        classify(flags[j]) matches Ok(ArgumentKind::Named(_)),
    ensures
        validate(flags) is Err,
{
    if classify_all(flags) is Ok {
        let kinds = classify_all(flags)->Ok_0;
        let f = |flag: Seq<char>| classify(flag);
        lemma_try_all_ok(flags, f);
        assert(f(flags[i]) == Ok::<ArgumentKind, ValidationErrorKind>(kinds[i]));
        assert(f(flags[j]) == Ok::<ArgumentKind, ValidationErrorKind>(kinds[j]));
        lemma_count_one(kinds, |kind: ArgumentKind| is_positional(kind), i);
        if is_short(kinds[j]) {
            lemma_count_one(kinds, |kind: ArgumentKind| is_short(kind), j);
        } else {
            lemma_count_one(kinds, |kind: ArgumentKind| is_long(kind), j);
        }
    }
}

/// Two flags declare the same kind: both short, both long or both positional.
pub open spec fn same_kind(a: ArgumentKind, b: ArgumentKind) -> bool {
    ||| is_short(a) && is_short(b)
    ||| is_long(a) && is_long(b)
    ||| is_positional(a) && is_positional(b)
}

/// A flag list with two entries of the same kind is rejected.
pub proof fn lemma_same_kind_twice_fails(flags: Seq<Seq<char>>, i: int, j: int)
    requires
        0 <= i < j < flags.len(),
        classify(flags[i]) is Ok,
        classify(flags[j]) is Ok,
        same_kind(classify(flags[i])->Ok_0, classify(flags[j])->Ok_0),
    ensures
        validate(flags) is Err,
{
    if classify_all(flags) is Ok {
        let kinds = classify_all(flags)->Ok_0;
        let f = |flag: Seq<char>| classify(flag);
        lemma_try_all_ok(flags, f);
        assert(f(flags[i]) == Ok::<ArgumentKind, ValidationErrorKind>(kinds[i]));
        assert(f(flags[j]) == Ok::<ArgumentKind, ValidationErrorKind>(kinds[j]));
        if is_short(kinds[i]) {
            lemma_count_two(kinds, |kind: ArgumentKind| is_short(kind), i, j);
        } else if is_long(kinds[i]) {
            lemma_count_two(kinds, |kind: ArgumentKind| is_long(kind), i, j);
        } else {
            lemma_count_two(kinds, |kind: ArgumentKind| is_positional(kind), i, j);
        }
    }
}

/// The flag lists that pass: one flag of any kind, or a short and a long
/// flag in either order.
pub proof fn lemma_valid_kinds(kinds: Seq<ArgumentKind>)
    ensures
        violation(kinds) is None <==> {
            ||| kinds.len() == 1
            ||| kinds.len() == 2 && is_short(kinds[0]) && is_long(kinds[1])
            ||| kinds.len() == 2 && is_long(kinds[0]) && is_short(kinds[1])
        },
{
    reveal_with_fuel(count, 3);
    if kinds.len() == 1 {
        assert(kinds.drop_last().len() == 0);
    } else if kinds.len() == 2 {
        assert(kinds.drop_last().len() == 1);
        assert(kinds.drop_last().drop_last().len() == 0);
        assert(kinds.drop_last().last() == kinds[0]);
    }
}

/// Classifies one raw flag string: "--" and a remainder is a long flag, "-"
/// and one character a short flag, anything without a leading '-' positional.
pub fn classify_flag(flag: &str) -> (classified: Result<ArgumentType, ValidationErrorKind>)
    ensures
        match classified {
            Ok(kind) => classify(flag@) == Ok::<ArgumentKind, ValidationErrorKind>(
                kind.deep_view(),
            ),
            Err(fault) => classify(flag@) == Err::<ArgumentKind, ValidationErrorKind>(fault),
        },
{
    let length: usize = flag.unicode_len();
    if length >= 2 && flag.get_char(0) == '-' && flag.get_char(1) == '-' {
        if length == 2 {
            Err(ValidationErrorKind::MalformedLongFlag)
        } else {
            let remainder = flag.substring_char(2, length);
            assert(remainder@ =~= flag@.skip(2));
            Ok(ArgumentType::Named(FlagType::Long(remainder.to_owned())))
        }
    } else if length >= 1 && flag.get_char(0) == '-' {
        if length == 2 {
            Ok(ArgumentType::Named(FlagType::Short(flag.get_char(1))))
        } else {
            Err(ValidationErrorKind::MalformedShortFlag)
        }
    } else {
        Ok(ArgumentType::Positional)
    }
}

/// Classifies an argument's flags and holds them to the grammar: one or two
/// flags; positional never beside named; at most one positional, one short
/// and one long. The first malformed flag is reported before any of these.
pub fn validate_flags(flags: &Vec<String>) -> (checked: Result<
    Vec<ArgumentType>,
    ValidationErrorKind,
>)
    ensures
        match checked {
            Ok(kinds) => validate(flags.deep_view()) == Ok::<
                Seq<ArgumentKind>,
                ValidationErrorKind,
            >(kinds.deep_view()),
            Err(fault) => validate(flags.deep_view()) == Err::<
                Seq<ArgumentKind>,
                ValidationErrorKind,
            >(fault),
        },
{
    let ghost raw = flags.deep_view();
    let mut kinds: Vec<ArgumentType> = Vec::new();
    let mut i: usize = 0;
    assert(raw.take(0) =~= Seq::empty());
    assert(kinds.deep_view() =~= Seq::empty());
    while i < flags.len()
        invariant
            i <= flags.len(),
            raw == flags.deep_view(),
            classify_all(raw.take(i as int)) == Ok::<Seq<ArgumentKind>, ValidationErrorKind>(
                kinds.deep_view(),
            ),
        decreases flags.len() - i,
    {
        proof {
            lemma_try_all_step(raw, |flag: Seq<char>| classify(flag), i as int);
        }
        match classify_flag(flags[i].as_str()) {
            Err(fault) => {
                proof {
                    lemma_try_all_prefix_err(raw, |flag: Seq<char>| classify(flag), i + 1);
                }
                return Err(fault);
            },
            Ok(kind) => {
                let ghost before = kinds.deep_view();
                kinds.push(kind);
                assert(kinds.deep_view() =~= before.push(kind.deep_view()));
            },
        }
        i += 1;
    }
    assert(raw.take(flags.len() as int) =~= raw);
    if kinds.len() == 0 {
        return Err(ValidationErrorKind::NoFlags);
    }
    if kinds.len() > 2 {
        return Err(ValidationErrorKind::TooManyFlags);
    }
    let ghost all = kinds.deep_view();
    let mut num_short: usize = 0;
    let mut num_long: usize = 0;
    let mut num_positional: usize = 0;
    let mut k: usize = 0;
    while k < kinds.len()
        invariant
            k <= kinds.len() <= 2,
            all == kinds.deep_view(),
            num_short == count_short(all.take(k as int)) <= k,
            num_long == count_long(all.take(k as int)) <= k,
            num_positional == count_positional(all.take(k as int)) <= k,
        decreases kinds.len() - k,
    {
        assert(all.take(k + 1).drop_last() =~= all.take(k as int));
        match &kinds[k] {
            ArgumentType::Named(FlagType::Short(_)) => {
                num_short += 1;
            },
            ArgumentType::Named(FlagType::Long(_)) => {
                num_long += 1;
            },
            ArgumentType::Positional => {
                num_positional += 1;
            },
        }
        k += 1;
    }
    assert(all.take(kinds.len() as int) =~= all);
    if num_positional > 0 && (num_short > 0 || num_long > 0) {
        return Err(ValidationErrorKind::PositionalWithNamed);
    }
    if num_positional > 1 {
        return Err(ValidationErrorKind::DuplicatePositional);
    }
    if num_short > 1 {
        return Err(ValidationErrorKind::DuplicateShortFlag);
    }
    if num_long > 1 {
        return Err(ValidationErrorKind::DuplicateLongFlag);
    }
    Ok(kinds)
}

} // verus!
