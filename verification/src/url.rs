use vstd::prelude::*;
use vstd::string::{StrSliceExecFns, StringExecFns};

verus! {

/// `text` without the slashes at its end.
pub open spec fn without_trailing_slashes(text: Seq<char>) -> Seq<char>
    decreases text.len(),
{
    if text.len() > 0 && text.last() == '/' {
        without_trailing_slashes(text.drop_last())
    } else {
        text
    }
}

/// `text` without the slashes at its beginning.
pub open spec fn without_leading_slashes(text: Seq<char>) -> Seq<char>
    decreases text.len(),
{
    if text.len() > 0 && text.first() == '/' {
        without_leading_slashes(text.drop_first())
    } else {
        text
    }
}

/// The address of the object stored under `key`, behind the CDN base `base`:
/// the base without the slashes at its end, one slash, and the key without
/// the slashes at its beginning. So one slash stands between the two,
/// however they were written.
pub open spec fn url_of(base: Seq<char>, key: Seq<char>) -> Seq<char> {
    without_trailing_slashes(base) + seq!['/'] + without_leading_slashes(key)
}

/// Whether `needle` stands in `hay` from place `at` on.
pub open spec fn occurs_at(hay: Seq<char>, needle: Seq<char>, at: int) -> bool {
    &&& 0 <= at
    &&& at + needle.len() <= hay.len()
    &&& hay.subrange(at, at + needle.len()) == needle
}

/// Whether `hay` has two slashes in a row at places `at` and `at + 1`.
pub open spec fn double_slash_at(hay: Seq<char>, at: int) -> bool {
    &&& 0 <= at
    &&& at + 1 < hay.len()
    &&& hay[at] == '/'
    &&& hay[at + 1] == '/'
}

/// What is left of a text without its trailing slashes is its beginning,
/// does not end in a slash, and lacks nothing but slashes.
pub proof fn lemma_without_trailing_slashes(text: Seq<char>)
    ensures
        without_trailing_slashes(text).len() <= text.len(),
        without_trailing_slashes(text) == text.subrange(0, without_trailing_slashes(text).len() as int),
        without_trailing_slashes(text).len() == 0 || without_trailing_slashes(text).last() != '/',
        forall|i: int| without_trailing_slashes(text).len() <= i < text.len() ==> text[i] == '/',
    decreases text.len(),
{
    if text.len() > 0 && text.last() == '/' {
        let shorter = text.drop_last();
        lemma_without_trailing_slashes(shorter);
        let kept = without_trailing_slashes(shorter);
        assert(kept =~= text.subrange(0, kept.len() as int));
        assert forall|i: int| kept.len() <= i < text.len() implies text[i] == '/' by {
            if i < shorter.len() {
                assert(shorter[i] == '/');
            }
        }
    } else {
        assert(text =~= text.subrange(0, text.len() as int));
    }
}

/// What is left of a text without its leading slashes is its end, does not
/// begin with a slash, and lacks nothing but slashes.
pub proof fn lemma_without_leading_slashes(text: Seq<char>)
    ensures
        without_leading_slashes(text).len() <= text.len(),
        without_leading_slashes(text) == text.subrange(
            text.len() - without_leading_slashes(text).len(),
            text.len() as int,
        ),
        without_leading_slashes(text).len() == 0 || without_leading_slashes(text).first() != '/',
        forall|i: int| 0 <= i < text.len() - without_leading_slashes(text).len() ==> text[i] == '/',
    decreases text.len(),
{
    if text.len() > 0 && text.first() == '/' {
        let shorter = text.drop_first();
        lemma_without_leading_slashes(shorter);
        let kept = without_leading_slashes(shorter);
        assert(kept =~= text.subrange(text.len() - kept.len(), text.len() as int));
        assert forall|i: int| 0 <= i < text.len() - kept.len() implies text[i] == '/' by {
            if i > 0 {
                assert(shorter[i - 1] == '/');
            }
        }
    } else {
        assert(text =~= text.subrange(0, text.len() as int));
    }
}

/// An address begins with its base and ends with its key, each without the
/// slashes at the joint, and one slash stands between them.
pub proof fn lemma_url_ends_with_key(base: Seq<char>, key: Seq<char>)
    ensures
        url_of(base, key).len() == without_trailing_slashes(base).len() + 1 + without_leading_slashes(key).len(),
        url_of(base, key).subrange(0, without_trailing_slashes(base).len() as int) == without_trailing_slashes(
            base,
        ),
        url_of(base, key)[without_trailing_slashes(base).len() as int] == '/',
        occurs_at(
            url_of(base, key),
            without_leading_slashes(key),
            without_trailing_slashes(base).len() as int + 1,
        ),
        forall|at: int|
            at > without_trailing_slashes(base).len() + 1 ==> !occurs_at(
                url_of(base, key),
                without_leading_slashes(key),
                at,
            ),
{
    let head = without_trailing_slashes(base);
    let tail = without_leading_slashes(key);
    let url = url_of(base, key);
    assert(url.subrange(0, head.len() as int) =~= head);
    assert(url.subrange(head.len() as int + 1, head.len() as int + 1 + tail.len()) =~= tail);
}

/// An address holds its key exactly once where the key is not empty, holds
/// no slash, and does not occur in the base.
pub proof fn lemma_url_holds_key_once(base: Seq<char>, key: Seq<char>, at: int)
    requires
        key.len() > 0,
        !key.contains('/'),
        forall|i: int| !occurs_at(base, key, i),
        occurs_at(url_of(base, key), key, at),
    ensures
        without_leading_slashes(key) == key,
        at == without_trailing_slashes(base).len() + 1,
{
    let head = without_trailing_slashes(base);
    let url = url_of(base, key);
    assert(key.first() != '/') by {
        if key[0] == '/' {
            assert(key.contains('/'));
        }
    }
    lemma_url_ends_with_key(base, key);
    lemma_without_trailing_slashes(base);
    if at < head.len() + 1 {
        let found = url.subrange(at, at + key.len());
        if at + key.len() <= head.len() {
            assert(base.subrange(at, at + key.len()) =~= found);
            assert(occurs_at(base, key, at));
        } else {
            let slash = head.len() - at;
            assert(found[slash] == url[head.len() as int]);
            assert(key[slash] == '/');
            assert(key.contains('/'));
        }
    }
}

/// The separator stands alone: no pair of slashes of an address holds the
/// slash between base and key, and every pair is a pair of the base or of
/// the key.
pub proof fn lemma_url_separator_is_single(base: Seq<char>, key: Seq<char>, at: int)
    requires
        double_slash_at(url_of(base, key), at),
    ensures
        at + 1 < without_trailing_slashes(base).len() || at > without_trailing_slashes(base).len(),
        at + 1 < without_trailing_slashes(base).len() ==> double_slash_at(base, at),
        at > without_trailing_slashes(base).len() ==> double_slash_at(
            key,
            at - url_of(base, key).len() + key.len(),
        ),
{
    let head = without_trailing_slashes(base);
    let tail = without_leading_slashes(key);
    let url = url_of(base, key);
    lemma_url_ends_with_key(base, key);
    lemma_without_trailing_slashes(base);
    lemma_without_leading_slashes(key);
    if at + 1 < head.len() {
        assert(url[at] == head[at] && url[at + 1] == head[at + 1]);
        assert(head[at] == base[at] && head[at + 1] == base[at + 1]);
    } else if at + 1 == head.len() {
        assert(url[at + 1] == head[at + 1]);
        assert(head.last() == '/');
    } else if at == head.len() {
        assert(url[at + 1] == tail[0]);
        assert(tail.first() == '/');
    } else {
        let place = at - head.len() - 1;
        let skipped = key.len() - tail.len();
        assert(url[at] == tail[place] && url[at + 1] == tail[place + 1]);
        assert(tail[place] == key[skipped + place] && tail[place + 1] == key[skipped + place + 1]);
    }
}

/// Composes the address of the object stored under `key`: slashes at the
/// end of the base and at the beginning of the key are left out, and one
/// slash is put between the two.
pub fn compose(base: &str, key: &str) -> (url: String)
    ensures
        url@ == url_of(base@, key@),
{
    let base_len: usize = base.unicode_len();
    let mut end: usize = base_len;
    assert(base@.subrange(0, end as int) =~= base@);
    while end > 0 && base.get_char(end - 1) == '/'
        invariant
            end <= base_len,
            base_len == base@.len(),
            without_trailing_slashes(base@) == without_trailing_slashes(base@.subrange(0, end as int)),
        decreases end,
    {
        assert(base@.subrange(0, end as int).drop_last() =~= base@.subrange(0, end - 1));
        end -= 1;
    }
    let key_len: usize = key.unicode_len();
    let mut start: usize = 0;
    assert(key@.subrange(start as int, key_len as int) =~= key@);
    while start < key_len && key.get_char(start) == '/'
        invariant
            start <= key_len,
            key_len == key@.len(),
            without_leading_slashes(key@) == without_leading_slashes(key@.subrange(start as int, key_len as int)),
        decreases key_len - start,
    {
        assert(key@.subrange(start as int, key_len as int).drop_first() =~= key@.subrange(
            start + 1,
            key_len as int,
        ));
        start += 1;
    }
    let mut url: String = String::from_str(base.substring_char(0, end));
    proof {
        reveal_strlit("/");
    }
    url.append("/");
    assert("/"@ =~= seq!['/']);
    url.append(key.substring_char(start, key_len));
    url
}

} // verus!
