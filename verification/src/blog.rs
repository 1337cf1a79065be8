//! Blog detection: blog posts are the documents under `areas/blog/`.

use vstd::prelude::*;

use crate::document::Document;
use crate::text::chars_eq_str;
use crate::text::chars_slice;
use crate::text::str_chars;

verus! {

/// A path names a blog post iff it starts with `areas/blog/`.
pub open spec fn is_blog_post_spec(path: Seq<char>) -> bool {
    path.len() >= 11 && path.subrange(0, 11) == "areas/blog/"@
}

/// Whether a relative path names a blog post.
pub fn is_blog_post(path: &str) -> (r: bool)
    ensures
        r == is_blog_post_spec(path@),
{
    let v = str_chars(path);
    if v.len() < 11 {
        proof {
            reveal_strlit("areas/blog/");
            assert("areas/blog/"@.len() == 11);
        }
        return false;
    }
    let head = chars_slice(&v, 0, 11);
    chars_eq_str(&head, "areas/blog/")
}

/// The documents among `docs` that are blog posts, in order.
pub open spec fn blog_posts_of(docs: Seq<Document>) -> Seq<Document>
    decreases docs.len(),
{
    if docs.len() == 0 {
        Seq::empty()
    } else {
        (if is_blog_post_spec(docs[0].relative_path@) {
            seq![docs[0]]
        } else {
            Seq::empty()
        }) + blog_posts_of(docs.drop_first())
    }
}

/// Filter a document collection down to its blog posts.
pub fn get_blog_posts<'a>(documents: &'a Vec<Document>) -> (r: Vec<&'a Document>)
    ensures
        r@.map_values(|d: &Document| *d) == blog_posts_of(documents@),
{
    let mut r: Vec<&Document> = Vec::new();
    let mut i: usize = 0;
    proof {
        assert(documents@.skip(0) =~= documents@);
        assert(r@.map_values(|d: &Document| *d) + blog_posts_of(documents@) =~= blog_posts_of(
            documents@,
        ));
    }
    while i < documents.len()
        invariant
            i <= documents@.len(),
            r@.map_values(|d: &Document| *d) + blog_posts_of(documents@.skip(i as int))
                == blog_posts_of(documents@),
        decreases documents@.len() - i,
    {
        let ghost pre = r@.map_values(|d: &Document| *d);
        proof {
            assert(documents@.skip(i as int)[0] == documents@[i as int]);
            assert(documents@.skip(i as int).drop_first() =~= documents@.skip(i as int + 1));
        }
        if is_blog_post(documents[i].relative_path.as_str()) {
            r.push(&documents[i]);
            proof {
                assert(r@.map_values(|d: &Document| *d) =~= pre + seq![documents@[i as int]]);
            }
        }
        i = i + 1;
        proof {
            assert(r@.map_values(|d: &Document| *d) + blog_posts_of(documents@.skip(i as int))
                =~= blog_posts_of(documents@));
        }
    }
    proof {
        assert(documents@.skip(documents@.len() as int) =~= Seq::<Document>::empty());
        assert(r@.map_values(|d: &Document| *d) =~= blog_posts_of(documents@));
    }
    r
}

} // verus!
