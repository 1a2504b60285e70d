//! What paths, times and numbers are like, in terms of what they are made of.

use vstd::prelude::*;

use crate::config::ConfigView;
use crate::error::{decimal, Error, Message};
use crate::lookup::remote_location;
use crate::metadata::TargetDescription;
use crate::path::{
    component_begins, component_ends, dots_at, file_begins, hash_prefixed, in_directory, safe_path,
};
use crate::time::UtcTime;

verus! {

/// `s` from `a` up to `b` is a component of the path: what stands between two slashes, or between a
/// slash and an end.
pub open spec fn is_component(s: Seq<char>, a: int, b: int) -> bool {
    &&& 0 <= a <= b <= s.len()
    &&& a == 0 || s[a - 1] == '/'
    &&& b == s.len() || s[b] == '/'
    &&& forall|i: int| a <= i < b ==> s[i] != '/'
}

/// A path is safe if and only if it is not empty, does not begin with a slash, and none of its
/// components is `.` or `..`.
pub proof fn safe_paths_have_no_dots_for_components(s: Seq<char>)
    ensures
        safe_path(s) <==> {
            &&& s.len() > 0
            &&& s[0] != '/'
            &&& forall|a: int, b: int| #[trigger]
                is_component(s, a, b) ==> s.subrange(a, b) != seq!['.'] && s.subrange(a, b) != seq![
                    '.',
                    '.',
                ]
        },
{
    if safe_path(s) {
        assert forall|a: int, b: int| #[trigger] is_component(s, a, b) implies s.subrange(a, b)
            != seq!['.'] && s.subrange(a, b) != seq!['.', '.'] by {
            assert(component_begins(s, a));
            let c = s.subrange(a, b);
            let one = seq!['.'];
            let two = seq!['.', '.'];
            assert(one.len() == 1 && two.len() == 2);
            assert(c.len() == b - a);
            if c == one {
                assert(c[0] == s[a]);
                assert(component_ends(s, a + 1));
                assert(dots_at(s, a));
            }
            if c == two {
                assert(c[0] == s[a]);
                assert(c[1] == s[a + 1]);
                assert(component_ends(s, a + 2));
                assert(dots_at(s, a));
            }
        }
    }
    if s.len() > 0 && s[0] != '/' && !safe_path(s) {
        let a = choose|a: int| #[trigger] component_begins(s, a) && dots_at(s, a);
        if component_ends(s, a + 1) {
            assert(is_component(s, a, a + 1));
            assert(s.subrange(a, a + 1) =~= seq!['.']);
        } else {
            assert(is_component(s, a, a + 2));
            assert(s.subrange(a, a + 2) =~= seq!['.', '.']);
        }
    }
}

/// `file` is the file name of the path `directory + file`: it holds no slash, and the directory is
/// empty or ends with one.
pub open spec fn is_file_in(directory: Seq<char>, file: Seq<char>) -> bool {
    &&& directory.len() == 0 || directory.last() == '/'
    &&& forall|i: int| 0 <= i < file.len() ==> file[i] != '/'
}

proof fn lemma_file_begins(directory: Seq<char>, file: Seq<char>)
    requires
        is_file_in(directory, file),
    ensures
        file_begins(directory + file) == directory.len(),
    decreases file.len(),
{
    let s = directory + file;
    if file.len() > 0 {
        assert(s.last() == file.last());
        assert(s.drop_last() =~= directory + file.drop_last());
        lemma_file_begins(directory, file.drop_last());
    } else {
        assert(s =~= directory);
    }
}

/// The hash prefix goes before the file name, in the same directory, with a dot behind it.
pub proof fn hash_goes_before_the_file_name(
    directory: Seq<char>,
    file: Seq<char>,
    hash: Seq<char>,
)
    requires
        is_file_in(directory, file),
    ensures
        hash_prefixed(directory + file, hash) == directory + hash + seq!['.'] + file,
{
    reveal_strlit(".");
    lemma_file_begins(directory, file);
    let s = directory + file;
    assert(s.take(directory.len() as int) =~= directory);
    assert(s.skip(directory.len() as int) =~= file);
    assert("."@ =~= seq!['.']);
}

/// The remote repository has the file of a target at its own path without consistent snapshots. With
/// them it is in the same directory, under its name with a hash and a dot before it: the SHA-512
/// hash wherever the description lists one, and the SHA-256 hash where it lists no SHA-512 hash.
/// There is no such file just where it lists neither.
pub proof fn target_file_is_found_by_its_strongest_hash(
    directory: Seq<char>,
    file: Seq<char>,
    description: &TargetDescription,
)
    requires
        is_file_in(directory, file),
    ensures
        ({
            let target = directory + file;
            let hashes = description.hashes@;
            let at = |hash: Seq<char>| directory + hash + seq!['.'] + file;
            let located = remote_location(true, target, description);
            &&& remote_location(false, target, description) == Ok::<Seq<char>, Error>(target)
            &&& hashes.contains_key("sha512"@) ==> located == Ok::<Seq<char>, Error>(
                at(hashes["sha512"@].hex@),
            )
            &&& !hashes.contains_key("sha512"@) && hashes.contains_key("sha256"@) ==> located
                == Ok::<Seq<char>, Error>(at(hashes["sha256"@].hex@))
            &&& !hashes.contains_key("sha512"@) && !hashes.contains_key("sha256"@) ==> located
                == Err::<Seq<char>, Error>(Error::NoSupportedHashAlgorithm)
        }),
{
    let hashes = description.hashes@;
    if hashes.contains_key("sha512"@) {
        hash_goes_before_the_file_name(directory, file, hashes["sha512"@].hex@);
    } else if hashes.contains_key("sha256"@) {
        hash_goes_before_the_file_name(directory, file, hashes["sha256"@].hex@);
    }
}

/// A path lies in a directory if and only if it is the directory, written with a slash at its end,
/// with something behind it.
pub proof fn children_begin_with_their_directory(parent: Seq<char>, s: Seq<char>, rest: Seq<char>)
    ensures
        in_directory(parent + rest, parent) <==> parent.len() > 0 && parent.last() == '/',
        in_directory(s, parent) ==> s == parent + s.skip(parent.len() as int),
{
    assert((parent + rest).subrange(0, parent.len() as int) =~= parent);
    if in_directory(s, parent) {
        assert(s =~= parent + s.skip(parent.len() as int));
    }
}

/// Times are ordered by their seconds, and within a second by their nanoseconds; of two different
/// times exactly one is not after the other.
pub proof fn times_are_ordered_by_seconds_and_nanoseconds(a: UtcTime, b: UtcTime, c: UtcTime)
    ensures
        a.seconds < b.seconds ==> a.not_after(b) && !b.not_after(a),
        a.seconds == b.seconds && a.nanos < b.nanos ==> a.not_after(b) && !b.not_after(a),
        a.not_after(a),
        a.not_after(b) && b.not_after(a) ==> a == b,
        a.not_after(b) && b.not_after(c) ==> a.not_after(c),
{
}

/// The number that decimal digits denote.
pub open spec fn number(digits: Seq<char>) -> int
    decreases digits.len(),
{
    if digits.len() == 0 {
        0
    } else {
        10 * number(digits.drop_last()) + (digits.last() as int - '0' as int)
    }
}

/// A number written in decimal consists of digits that denote it, without a needless zero in front.
pub proof fn decimals_denote_their_number(n: nat)
    ensures
        number(decimal(n)) == n,
        forall|i: int| 0 <= i < decimal(n).len() ==> '0' <= #[trigger] decimal(n)[i] <= '9',
        decimal(n).len() > 0,
        n > 0 ==> decimal(n)[0] != '0',
    decreases n,
{
    let digits = decimal(n);
    if n < 10 {
        assert(digits.drop_last() =~= Seq::empty());
        assert(number(digits.drop_last()) == 0);
    } else {
        decimals_denote_their_number(n / 10);
        assert(digits.drop_last() =~= decimal(n / 10));
        assert(digits[0] == decimal(n / 10)[0]);
        assert forall|i: int| 0 <= i < digits.len() implies '0' <= #[trigger] digits[i] <= '9' by {
            if i < digits.len() - 1 {
                assert(digits[i] == decimal(n / 10)[i]);
            }
        }
    }
}

/// The message about an older root names the two versions, the latest one first.
pub proof fn older_root_is_named_in_decimal(latest: u32, trusted: u32)
    ensures
        (Message::LatestRootOlder { latest, trusted }).words()
            == "Latest root version is lower than current root version: "@ + decimal(latest as nat)
            + " < "@ + decimal(trusted as nat),
{
}

/// The limits of an update are the configured ones.
pub proof fn limits_are_the_configured_ones<T>(config: ConfigView<T>)
    ensures
        config.limits().root == config.max_root_length,
        config.limits().timestamp == config.max_timestamp_length,
{
}

} // verus!
