//! Paginated object discovery.
//!
//! The enumerator is a cursor-holding state machine. The caller issues each
//! listing request (a network call this library does not make) and feeds the
//! response back with [`Enumerator::apply_page`]; the enumerator decides when
//! the sequence is exhausted and accounts for every key of every batch, in
//! order, exactly once.

use vstd::prelude::*;

verus! {

/// The concatenation of all page batches, in order.
pub open spec fn concat_pages(pages: Seq<Seq<Seq<char>>>) -> Seq<Seq<char>>
    decreases pages.len(),
{
    if pages.len() == 0 {
        Seq::empty()
    } else {
        concat_pages(pages.drop_last()) + pages.last()
    }
}

/// Concatenation grows batch by batch.
pub proof fn lemma_concat_pages_push(pages: Seq<Seq<Seq<char>>>, page: Seq<Seq<char>>)
    ensures
        concat_pages(pages.push(page)) == concat_pages(pages) + page,
{
    assert(pages.push(page).drop_last() =~= pages);
}

/// A lazy, finite, non-restartable walk over the keys under one bucket and
/// prefix.
///
/// While not finished, the caller lists one page with the held continuation
/// token and applies the response; a listing failure ends the walk. The keys
/// handed out are exactly the concatenation of the applied batches.
pub struct Enumerator {
    token: Option<String>,
    finished: bool,
    failed: bool,
    pages: Ghost<Seq<Seq<Seq<char>>>>,
    yielded: Ghost<Seq<Seq<char>>>,
}

impl Enumerator {
    /// The batches applied so far, oldest first.
    pub closed spec fn pages_seen(self) -> Seq<Seq<Seq<char>>> {
        self.pages@
    }

    /// Every key handed out so far, in order.
    pub closed spec fn yielded_keys(self) -> Seq<Seq<char>> {
        self.yielded@
    }

    /// No further listing request is owed.
    pub closed spec fn is_finished(self) -> bool {
        self.finished
    }

    /// The walk ended on a listing failure.
    pub closed spec fn has_failed(self) -> bool {
        self.failed
    }

    /// The continuation token for the next listing request, if the previous
    /// response carried one.
    pub closed spec fn spec_token(self) -> Option<Seq<char>> {
        match self.token {
            Some(t) => Some(t@),
            None => None,
        }
    }

    /// The keys handed out are exactly the concatenation of the batches
    /// applied: none dropped, none duplicated, none reordered.
    pub closed spec fn wf(self) -> bool {
        self.yielded@ == concat_pages(self.pages@)
    }

    /// Starts a walk: no token, nothing yielded, not finished.
    pub fn new() -> (r: Enumerator)
        ensures
            r.wf(),
            !r.is_finished(),
            !r.has_failed(),
            r.spec_token() is None,
            r.pages_seen() == Seq::<Seq<Seq<char>>>::empty(),
            r.yielded_keys() == Seq::<Seq<char>>::empty(),
    {
        Enumerator {
            token: None,
            finished: false,
            failed: false,
            pages: Ghost(Seq::empty()),
            yielded: Ghost(Seq::empty()),
        }
    }

    /// The token to send with the next listing request; absent on the first
    /// request.
    pub fn next_token(&self) -> (r: &Option<String>)
        ensures
            r is Some <==> self.spec_token() is Some,
            r matches Some(t) ==> self.spec_token() == Some(t@),
    {
        &self.token
    }

    /// Whether the walk is over.
    pub fn is_done(&self) -> (r: bool)
        ensures
            r == self.is_finished(),
    {
        self.finished
    }

    /// Whether the walk ended on a listing failure.
    pub fn did_fail(&self) -> (r: bool)
        ensures
            r == self.has_failed(),
    {
        self.failed
    }

    /// Applies one listing response: the batch's keys are handed back to be
    /// dispatched, in order, and the walk ends exactly when the response
    /// carries no continuation token.
    pub fn apply_page(&mut self, keys: Vec<String>, next_token: Option<String>) -> (out: Vec<
        String,
    >)
        requires
            old(self).wf(),
            !old(self).is_finished(),
        ensures
            final(self).wf(),
            out == keys,
            final(self).pages_seen() == old(self).pages_seen().push(keys.deep_view()),
            final(self).yielded_keys() == old(self).yielded_keys() + keys.deep_view(),
            final(self).is_finished() == (next_token is None),
            final(self).has_failed() == old(self).has_failed(),
            next_token matches Some(t) ==> final(self).spec_token() == Some(t@),
    {
        proof {
            lemma_concat_pages_push(self.pages@, keys.deep_view());
        }
        self.pages = Ghost(self.pages@.push(keys.deep_view()));
        self.yielded = Ghost(self.yielded@ + keys.deep_view());
        match next_token {
            Some(t) => {
                self.token = Some(t);
            },
            None => {
                self.token = None;
                self.finished = true;
            },
        }
        keys
    }

    /// Records a listing failure: the walk ends, no key is retracted, and no
    /// further page is requested.
    pub fn fail(&mut self)
        requires
            old(self).wf(),
        ensures
            final(self).wf(),
            final(self).is_finished(),
            final(self).has_failed(),
            final(self).pages_seen() == old(self).pages_seen(),
            final(self).yielded_keys() == old(self).yielded_keys(),
    {
        self.finished = true;
        self.failed = true;
    }

    /// The keys handed out equal the concatenation of all applied batches,
    /// however many batches were empty with a continuation.
    pub proof fn lemma_enumeration_concatenation(self)
        requires
            self.wf(),
        ensures
            self.yielded_keys() == concat_pages(self.pages_seen()),
    {
    }
}

} // verus!
