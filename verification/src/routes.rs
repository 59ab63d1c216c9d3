//! The route table: which handler answers which method and path.

use vstd::prelude::*;
use crate::path::{lemma_two_segments, segments_of, slash_free, split_path, words};

verus! {

/// The methods that the service answers.
#[derive(Clone, Copy, Debug, PartialEq, Eq, Structural)]
pub enum Method {
    Get,
    Post,
    Put,
    Delete,
}

/// The handler that a request is bound to, with the id from its path where
/// the handler takes one.
#[derive(Clone, Copy, Debug, PartialEq, Eq, Structural)]
pub enum Route {
    Index,
    GetConfig,
    GetAllBlogPosts,
    GetRandomBlogPost,
    GetBlogPost(i32),
    CreateBlogPost,
    UpdateBlogPost(i32),
    DeleteBlogPost(i32),
}

/// Whether the character is a decimal digit.
pub open spec fn is_digit(c: char) -> bool {
    '0' <= c && c <= '9'
}

/// Whether every character is a decimal digit.
pub open spec fn all_digits(digits: Seq<char>) -> bool {
    forall|i: int| 0 <= i < digits.len() ==> is_digit(#[trigger] digits[i])
}

/// The number that a run of decimal digits writes.
pub open spec fn decimal(digits: Seq<char>) -> int
    decreases digits.len(),
{
    if digits.len() == 0 {
        0
    } else {
        10 * decimal(digits.drop_last()) + (digits.last() as int - '0' as int)
    }
}

/// The id that a path segment writes: an optional sign, `+` or `-`, and
/// then one or more decimal digits, whose number fits an `i32`. Any other
/// segment writes no id.
pub open spec fn parsed_id(word: Seq<char>) -> Option<int> {
    let negative = word.len() > 0 && word[0] == '-';
    let signed = word.len() > 0 && (word[0] == '-' || word[0] == '+');
    let digits = if signed {
        word.skip(1)
    } else {
        word
    };
    let value = if negative {
        -decimal(digits)
    } else {
        decimal(digits)
    };
    if digits.len() > 0 && all_digits(digits) && i32::MIN <= value <= i32::MAX {
        Some(value)
    } else {
        None
    }
}

/// The route of a request, by its method and the segments of its path;
/// `None` where the table binds no handler.
///
/// `random` under `blog-posts` is bound before the id is looked at, so that
/// it is never read as one.
pub open spec fn route_of(method: Method, segments: Seq<Seq<char>>) -> Option<Route> {
    if segments.len() == 0 {
        match method {
            Method::Get => Some(Route::Index),
            _ => None,
        }
    } else if segments.len() == 1 && segments[0] == "config"@ {
        match method {
            Method::Get => Some(Route::GetConfig),
            _ => None,
        }
    } else if segments.len() == 1 && segments[0] == "blog-posts"@ {
        match method {
            Method::Get => Some(Route::GetAllBlogPosts),
            Method::Post => Some(Route::CreateBlogPost),
            _ => None,
        }
    } else if segments.len() == 2 && segments[0] == "blog-posts"@ {
        if method == Method::Get && segments[1] == "random"@ {
            Some(Route::GetRandomBlogPost)
        } else {
            match parsed_id(segments[1]) {
                Some(id) => match method {
                    Method::Get => Some(Route::GetBlogPost(id as i32)),
                    Method::Put => Some(Route::UpdateBlogPost(id as i32)),
                    Method::Delete => Some(Route::DeleteBlogPost(id as i32)),
                    Method::Post => None,
                },
                None => None,
            }
        }
    } else {
        None
    }
}

/// The number written by the first digits of a run is no greater than the
/// number written by all of them, and neither is negative.
proof fn lemma_decimal_grows(digits: Seq<char>, k: int)
    requires
        all_digits(digits),
        0 <= k <= digits.len(),
    ensures
        0 <= decimal(digits.take(k)) <= decimal(digits),
    decreases digits.len() - k,
{
    if k == digits.len() {
        assert(digits.take(k) =~= digits);
        lemma_decimal_nonnegative(digits);
    } else {
        lemma_decimal_grows(digits, k + 1);
        let longer = digits.take(k + 1);
        assert(longer.drop_last() =~= digits.take(k));
        assert(is_digit(digits[k]));
        assert(longer.last() == digits[k]);
        lemma_decimal_nonnegative(digits.take(k));
    }
}

proof fn lemma_decimal_nonnegative(digits: Seq<char>)
    requires
        all_digits(digits),
    ensures
        0 <= decimal(digits),
    decreases digits.len(),
{
    if digits.len() > 0 {
        lemma_decimal_nonnegative(digits.drop_last());
        assert(is_digit(digits[digits.len() - 1]));
    }
}

/// Reads the id that a path segment writes.
pub fn parse_id(word: &Vec<char>) -> (id: Option<i32>)
    ensures
        parsed_id(word@) == match id {
            Some(v) => Some(v as int),
            None => None,
        },
{
    let n = word.len();
    if n == 0 {
        return None;
    }
    let negative = word[0] == '-';
    let start: usize = if negative || word[0] == '+' {
        1
    } else {
        0
    };
    if start == n {
        return None;
    }
    let ghost digits = word@.skip(start as int);
    let mut acc: i64 = 0;
    let mut i: usize = start;
    assert(digits.take(0) =~= Seq::<char>::empty());
    while i < n
        invariant
            start <= i <= n,
            start < n,
            n == word.len(),
            negative == (word@[0] == '-'),
            start == 1 <==> word@[0] == '-' || word@[0] == '+',
            start == 0 || start == 1,
            digits == word@.skip(start as int),
            all_digits(digits.take(i - start)),
            acc == decimal(digits.take(i - start)),
            0 <= acc <= 2147483648,
        decreases n - i,
    {
        let c = word[i];
        assert(digits[i - start] == c);
        if !(c >= '0' && c <= '9') {
            assert(word@.skip(0) =~= word@);
            assert(!is_digit(digits[i - start]));
            return None;
        }
        let d = (c as u32 - '0' as u32) as i64;
        acc = acc * 10 + d;
        proof {
            let longer = digits.take(i + 1 - start);
            assert(longer.drop_last() =~= digits.take(i - start));
            assert(longer.last() == c);
            assert(acc == decimal(longer));
            assert forall|k: int| 0 <= k < longer.len() implies is_digit(#[trigger] longer[k]) by {
                if k < i - start {
                    assert(digits.take(i - start)[k] == longer[k]);
                }
            }
        }
        if acc > 2147483648 {
            proof {
                assert(word@.skip(0) =~= word@);
                if all_digits(digits) {
                    lemma_decimal_grows(digits, i + 1 - start);
                }
            }
            return None;
        }
        i += 1;
    }
    assert(digits.take(n - start) =~= digits);
    assert(word@.skip(0) =~= word@);
    if negative {
        Some((-acc) as i32)
    } else if acc <= 2147483647 {
        Some(acc as i32)
    } else {
        None
    }
}

/// Whether the word is spelled by the text.
fn spells(word: &Vec<char>, text: &str) -> (same: bool)
    ensures
        same == (word@ == text@),
{
    let mut i: usize = 0;
    for c in it: text.chars()
        invariant
            it.seq() == text@,
            i == it.index(),
            i <= word.len(),
            forall|k: int| 0 <= k < i ==> word@[k] == text@[k],
    {
        if i >= word.len() || word[i] != c {
            assert(word@ != text@) by {
                if i < word.len() {
                    assert(word@[i as int] != text@[i as int]);
                }
            }
            return false;
        }
        i += 1;
    }
    if i == word.len() {
        assert(word@ =~= text@);
        true
    } else {
        false
    }
}

/// Finds the handler that the route table binds to a method and a path.
/// The path is the part of the request target before any `?`, already
/// percent-decoded; empty segments, as in `//` or after a last `/`, do not count.
pub fn route(method: Method, path: &str) -> (found: Option<Route>)
    ensures
        found == route_of(method, segments_of(path@)),
{
    let segments = split_path(path);
    let n = segments.len();
    assert(forall|i: int| 0 <= i < n ==> segments@[i]@ == #[trigger] words(segments@)[i]);
    if n == 0 {
        match method {
            Method::Get => Some(Route::Index),
            _ => None,
        }
    } else if n == 1 && spells(&segments[0], "config") {
        match method {
            Method::Get => Some(Route::GetConfig),
            _ => None,
        }
    } else if n == 1 && spells(&segments[0], "blog-posts") {
        match method {
            Method::Get => Some(Route::GetAllBlogPosts),
            Method::Post => Some(Route::CreateBlogPost),
            _ => None,
        }
    } else if n == 2 && spells(&segments[0], "blog-posts") {
        let is_get = match method {
            Method::Get => true,
            _ => false,
        };
        if is_get && spells(&segments[1], "random") {
            Some(Route::GetRandomBlogPost)
        } else {
            match parse_id(&segments[1]) {
                Some(id) => match method {
                    Method::Get => Some(Route::GetBlogPost(id)),
                    Method::Put => Some(Route::UpdateBlogPost(id)),
                    Method::Delete => Some(Route::DeleteBlogPost(id)),
                    Method::Post => None,
                },
                None => None,
            }
        }
    } else {
        None
    }
}

/// `random` writes no id: whatever the method, a request for
/// `/blog-posts/random` is never bound to a handler that takes an id, and a
/// `GET` of it is bound to the handler of the random post.
pub proof fn lemma_random_is_no_id(method: Method)
    ensures
        parsed_id("random"@) is None,
        segments_of("/blog-posts/random"@) == seq!["blog-posts"@, "random"@],
        route_of(Method::Get, segments_of("/blog-posts/random"@)) == Some(
            Route::GetRandomBlogPost,
        ),
        method != Method::Get ==> route_of(method, segments_of("/blog-posts/random"@)) is None,
{
    reveal_strlit("random");
    reveal_strlit("blog-posts");
    reveal_strlit("config");
    reveal_strlit("/blog-posts/random");
    let word = "random"@;
    assert(word[0] == 'r');
    assert(!is_digit(word[0]));
    let segments = seq!["blog-posts"@, "random"@];
    assert(segments[0] == "blog-posts"@);
    assert(segments[1] == "random"@);
    assert("blog-posts"@.len() != "config"@.len());
    assert(segments_of("/blog-posts/random"@) =~= segments) by {
        assert("/blog-posts/random"@ =~= seq!['/'] + "blog-posts"@ + seq!['/'] + "random"@);
        assert(slash_free("blog-posts"@));
        assert(slash_free("random"@));
        lemma_two_segments("/blog-posts/random"@, "blog-posts"@, "random"@);
    }
}

} // verus!
