//! What is accepted of names, hosts and packet sizes.
use vstd::prelude::*;
use vstd::string::*;

use crate::text::{char_is_control, chars_of, is_control};

verus! {

broadcast use vstd::seq::group_seq_axioms;

pub struct Sanitizer;

/// Most characters of a host.
pub const MAX_HOST_CHARS: usize = 255;

pub open spec fn username_char(c: char) -> bool {
    ||| 'a' <= c && c <= 'z'
    ||| 'A' <= c && c <= 'Z'
    ||| '0' <= c && c <= '9'
    ||| c == '_'
}

/// Two to sixteen letters, digits and underscores.
pub open spec fn valid_username(name: Seq<char>) -> bool {
    &&& 2 <= name.len() <= 16
    &&& forall|i: int| 0 <= i < name.len() ==> username_char(#[trigger] name[i])
}

/// A character that may stand in a host.
pub open spec fn host_char(c: char) -> bool {
    c != '\0' && !is_control(c)
}

/// The host as it is used further on: the characters of it that may stand in one, in their
/// order, and no more than the first 255 of them.
pub open spec fn sanitized_host(host: Seq<char>) -> Seq<char> {
    let kept = host.filter(|c: char| host_char(c));
    if kept.len() > MAX_HOST_CHARS {
        kept.take(MAX_HOST_CHARS as int)
    } else {
        kept
    }
}

impl Sanitizer {
    /// Validates a Minecraft username: 2 to 16 ASCII letters, digits and underscores.
    pub fn is_valid_username(name: &str) -> (r: bool)
        ensures
            r == valid_username(name@),
    {
        let v = chars_of(name);
        if v.len() < 2 || v.len() > 16 {
            return false;
        }
        let mut i: usize = 0;
        while i < v.len()
            invariant
                i <= v@.len(),
                v@ == name@,
                forall|j: int| 0 <= j < i ==> username_char(#[trigger] v@[j]),
            decreases v.len() - i,
        {
            let c = v[i];
            if !((c >= 'a' && c <= 'z') || (c >= 'A' && c <= 'Z') || (c >= '0' && c <= '9') || c
                == '_') {
                assert(!username_char(v@[i as int]));
                return false;
            }
            i = i + 1;
        }
        true
    }

    /// Strips NUL and other control characters from a virtual host and cuts it to 255
    /// characters at most.
    pub fn sanitize_host(host: &str) -> (r: String)
        ensures
            r@ == sanitized_host(host@),
    {
        let v = chars_of(host);
        let ghost ok = |c: char| host_char(c);
        let mut clean = String::new();
        let mut kept: usize = 0;
        let mut i: usize = 0;
        assert(v@.take(0) == Seq::<char>::empty());
        proof {
            reveal(Seq::filter);
        }
        assert(clean@ == v@.take(0).filter(ok));
        while i < v.len() && kept < MAX_HOST_CHARS
            invariant
                i <= v@.len(),
                v@ == host@,
                ok == (|c: char| host_char(c)),
                clean@ == v@.take(i as int).filter(ok),
                kept == clean@.len(),
                kept <= MAX_HOST_CHARS,
            decreases v.len() - i,
        {
            let c = v[i];
            proof {
                reveal(Seq::filter);
                assert(v@.take(i + 1).drop_last() == v@.take(i as int));
                assert(v@.take(i + 1).last() == c);
            }
            if c != '\0' && !char_is_control(c) {
                clean.push(c);
                kept = kept + 1;
            }
            i = i + 1;
        }
        proof {
            let front = v@.take(i as int);
            let rest = v@.skip(i as int);
            assert(front + rest == host@);
            Seq::filter_distributes_over_add(front, rest, ok);
            reveal(Seq::filter);
            if i == v@.len() {
                assert(front == host@);
            } else {
                assert((clean@ + rest.filter(ok)).take(MAX_HOST_CHARS as int) == clean@);
                if rest.filter(ok).len() == 0 {
                    assert(clean@ + rest.filter(ok) == clean@);
                }
            }
        }
        clean
    }

    /// Validates a packet size against the maximum.
    pub fn is_valid_packet_size(size: usize, max_allowed: usize) -> (r: bool)
        ensures
            r == (size <= max_allowed),
    {
        size <= max_allowed
    }
}

// ---------------------------------------------------------------------------
// Laws of the sanitizer
// ---------------------------------------------------------------------------

/// A username that is accepted can stand in a query and a host unchanged: every character of it
/// is visible ASCII.
pub proof fn law_valid_username_is_plain(name: Seq<char>)
    requires
        valid_username(name),
    ensures
        forall|i: int| 0 <= i < name.len() ==> 0x20 < (#[trigger] name[i]) as u32 && (name[i] as u32)
            < 0x7f,
{
    assert forall|i: int| 0 <= i < name.len() implies 0x20 < (#[trigger] name[i]) as u32 && (
    name[i] as u32) < 0x7f by {
        assert(username_char(name[i]));
    }
}

/// A sanitized host has 255 characters at most and no control character, so none that could
/// break up a forwarding host.
pub proof fn law_sanitized_host_is_safe(host: Seq<char>)
    ensures
        sanitized_host(host).len() <= 255,
        !sanitized_host(host).contains('\0'),
        forall|i: int|
            0 <= i < sanitized_host(host).len() ==> !is_control(#[trigger] sanitized_host(host)[i]),
{
    let ok = |c: char| host_char(c);
    let s = sanitized_host(host);
    let kept = host.filter(ok);
    host.filter_lemma(ok);
    assert forall|i: int| 0 <= i < s.len() implies host_char(#[trigger] s[i]) by {
        assert(s[i] == kept[i]);
        assert(ok(kept[i]));
    }
}

/// A host without control characters that fits is left as it is.
pub proof fn law_clean_host_is_kept(host: Seq<char>)
    requires
        host.len() <= 255,
        forall|i: int| 0 <= i < host.len() ==> host_char(#[trigger] host[i]),
    ensures
        sanitized_host(host) == host,
{
    lemma_all_kept(host);
}

proof fn lemma_all_kept(host: Seq<char>)
    requires
        forall|i: int| 0 <= i < host.len() ==> host_char(#[trigger] host[i]),
    ensures
        host.filter(|c: char| host_char(c)) == host,
    decreases host.len(),
{
    reveal(Seq::filter);
    if host.len() > 0 {
        let front = host.drop_last();
        assert forall|i: int| 0 <= i < front.len() implies host_char(#[trigger] front[i]) by {
            assert(front[i] == host[i]);
        }
        lemma_all_kept(front);
        assert(front.push(host.last()) == host);
    }
}

/// What has been cut and cleaned once stays as it is.
pub proof fn law_sanitizing_twice_changes_nothing(host: Seq<char>)
    ensures
        sanitized_host(sanitized_host(host)) == sanitized_host(host),
{
    law_sanitized_host_is_safe(host);
    law_clean_host_is_kept(sanitized_host(host));
}

/// Accepted as usernames are the texts of two to sixteen of the letters and digits of ASCII and the
/// underscore: all of them, and no others.
pub proof fn law_usernames_that_are_accepted(name: Seq<char>)
    ensures
        2 <= name.len() <= 16 && (forall|i: int|
            0 <= i < name.len()
                ==> "abcdefghijklmnopqrstuvwxyzABCDEFGHIJKLMNOPQRSTUVWXYZ0123456789_"@.contains(
                #[trigger] name[i],
            )) ==> valid_username(name),
        valid_username(name) ==> 2 <= name.len() <= 16,
        valid_username(name) ==> forall|i: int|
            0 <= i < name.len() ==> ({
                let u = (#[trigger] name[i]) as u32;
                (48 <= u && u <= 57) || (65 <= u && u <= 90) || u == 95 || (97 <= u && u <= 122)
            }),
{
    let signs = "abcdefghijklmnopqrstuvwxyzABCDEFGHIJKLMNOPQRSTUVWXYZ0123456789_"@;
    reveal_strlit("abcdefghijklmnopqrstuvwxyzABCDEFGHIJKLMNOPQRSTUVWXYZ0123456789_");
    assert forall|j: int| 0 <= j < signs.len() implies username_char(#[trigger] signs[j]) by {}
    if forall|i: int| 0 <= i < name.len() ==> signs.contains(#[trigger] name[i]) {
        assert forall|i: int| 0 <= i < name.len() implies username_char(#[trigger] name[i]) by {
            assert(signs.contains(name[i]));
            let j = choose|j: int| 0 <= j < signs.len() && signs[j] == name[i];
            assert(username_char(signs[j]));
        }
    }
    if valid_username(name) {
        assert forall|i: int| 0 <= i < name.len() implies ({
            let u = (#[trigger] name[i]) as u32;
            (48 <= u && u <= 57) || (65 <= u && u <= 90) || u == 95 || (97 <= u && u <= 122)
        }) by {
            assert(username_char(name[i]));
        }
    }
}

/// A sanitized host is the beginning of what is left of the host without its control characters;
/// it is cut only where more than 255 characters are left.
pub proof fn law_sanitizing_only_cuts_and_cleans(host: Seq<char>)
    ensures
        ({
            let kept = host.filter(|c: char| !is_control(c));
            &&& kept.len() <= 255 ==> sanitized_host(host) == kept
            &&& kept.len() > 255 ==> sanitized_host(host) == kept.take(255)
        }),
{
    lemma_same_filter(host);
}

proof fn lemma_same_filter(host: Seq<char>)
    ensures
        host.filter(|c: char| host_char(c)) == host.filter(|c: char| !is_control(c)),
    decreases host.len(),
{
    reveal(Seq::filter);
    if host.len() > 0 {
        lemma_same_filter(host.drop_last());
    }
}

/// A packet is accepted up to the largest size that is allowed.
pub proof fn law_packet_sizes(size: usize, max: usize, r: bool)
    requires
        call_ensures(Sanitizer::is_valid_packet_size, (size, max), r),
    ensures
        r <==> size <= max,
{
}

/// Names and hosts are judged and cleaned as they were given.
pub proof fn law_sanitizer_is_used_as_given(name: &str, ok: bool, host: &str, clean: String)
    requires
        call_ensures(Sanitizer::is_valid_username, (name,), ok),
        call_ensures(Sanitizer::sanitize_host, (host,), clean),
    ensures
        ok == valid_username(name@),
        clean@ == sanitized_host(host@),
{
}

} // verus!
