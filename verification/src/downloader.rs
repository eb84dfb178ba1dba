//! What to download and where to: the configuration of one transfer.

use vstd::prelude::*;
use vstd::std_specs::iter::IteratorSpec;
use vstd::string::StrSliceExecFns;
use vstd::string::StringExecFns;
use tokio_util::sync::CancellationToken;
use crate::transfer::initial;
use crate::transfer::Action;
use crate::transfer::ActionView;
use crate::transfer::Transfer;

verus! {

/// Where the final segment of a path begins: behind its last `/`, or at 0
/// where it has none.
pub open spec fn segment_start(path: Seq<char>) -> int
    decreases path.len(),
{
    if path.len() == 0 || path.last() == '/' {
        path.len() as int
    } else {
        segment_start(path.drop_last())
    }
}

/// The final segment of a path: what follows its last `/`, or all of it
/// where it has none.
pub open spec fn final_segment(path: Seq<char>) -> Seq<char> {
    path.skip(segment_start(path))
}

/// The final segment holds no `/`, it ends the path, and it is the longest
/// such end: what stands before it is nothing, or ends in `/`.
pub proof fn final_segment_follows_the_last_slash(path: Seq<char>)
    ensures
        0 <= segment_start(path) <= path.len(),
        forall|i: int| segment_start(path) <= i < path.len() ==> path[i] != '/',
        segment_start(path) > 0 ==> path[segment_start(path) - 1] == '/',
        path.take(segment_start(path)) + final_segment(path) == path,
    decreases path.len(),
{
    if path.len() > 0 && path.last() != '/' {
        let front = path.drop_last();
        final_segment_follows_the_last_slash(front);
        assert forall|i: int| segment_start(path) <= i < path.len() implies path[i] != '/' by {
            if i < front.len() {
                assert(path[i] == front[i]);
            }
        }
        if segment_start(path) > 0 {
            assert(path[segment_start(path) - 1] == front[segment_start(front) - 1]);
        }
    }
    assert(path.take(segment_start(path)) + final_segment(path) =~= path);
}

/// The name of the file that a URL points to: the text behind its last `/`,
/// the whole URL where it has none, nothing where it ends in one.
pub fn file_name_from_url(url: &str) -> (name: &str)
    ensures
        name@ == final_segment(url@),
{
    let n = url.unicode_len();
    let mut chars = url.chars();
    let mut start: usize = 0;
    let mut i: usize = 0;
    assert(url@.take(0) =~= Seq::<char>::empty());
    assert(url@.skip(0) =~= url@);
    loop
        invariant
            n == url@.len(),
            i <= n,
            chars.remaining() == url@.skip(i as int),
            start == segment_start(url@.take(i as int)),
            start <= i,
        ensures
            i == n,
        decreases n - i,
    {
        match chars.next() {
            None => {
                break ;
            },
            Some(c) => {
                assert(url@.skip(i as int).drop_first() =~= url@.skip(i + 1));
                assert(url@.take(i + 1).drop_last() =~= url@.take(i as int));
                assert(url@.take(i + 1).last() == c);
                i += 1;
                if c == '/' {
                    start = i;
                }
            },
        }
    }
    assert(url@.take(n as int) =~= url@);
    let name = url.substring_char(start, n);
    assert(name@ =~= final_segment(url@));
    name
}

/// What to download, where to, and the signal that stops it.
pub struct Downloader {
    url: String,
    output_path: String,
    token: CancellationToken,
}

/// A [`Downloader`] with its texts as sequences.
pub struct DownloaderView {
    /// The URL to download.
    pub url: Seq<char>,
    /// The path of the output file.
    pub output_path: Seq<char>,
    /// The signal that stops a download.
    pub token: CancellationToken,
}

impl View for Downloader {
    type V = DownloaderView;

    closed spec fn view(&self) -> DownloaderView {
        DownloaderView { url: self.url@, output_path: self.output_path@, token: self.token }
    }
}

impl Downloader {
    /// A downloader with no URL, no output path, and a signal of its own
    /// that nobody else can set.
    pub fn new() -> (res: Self)
        ensures
            res@.url == Seq::<char>::empty(),
            res@.output_path == Seq::<char>::empty(),
    {
        Downloader { url: String::new(), output_path: String::new(), token: CancellationToken::new() }
    }

    /// Sets the URL. Where no output path is set, the file name that the URL
    /// ends in becomes the output path.
    pub fn with_url(self, url: String) -> (res: Self)
        ensures
            res@.url == url@,
            res@.output_path == if self@.output_path.len() == 0 {
                final_segment(url@)
            } else {
                self@.output_path
            },
            res@.token == self@.token,
    {
        let output_path = if self.output_path.as_str().is_empty() {
            String::from_str(file_name_from_url(url.as_str()))
        } else {
            self.output_path
        };
        Downloader { url, output_path, token: self.token }
    }

    /// Sets the output path.
    pub fn with_output_path(self, output_path: String) -> (res: Self)
        ensures
            res@ == (DownloaderView { output_path: output_path@, ..self@ }),
    {
        Downloader { url: self.url, output_path, token: self.token }
    }

    /// Sets the signal that stops a download.
    pub fn with_token(self, token: CancellationToken) -> (res: Self)
        ensures
            res@ == (DownloaderView { token, ..self@ }),
    {
        Downloader { url: self.url, output_path: self.output_path, token }
    }

    /// The URL to download.
    pub fn url(&self) -> (url: &str)
        ensures
            url@ == self@.url,
    {
        self.url.as_str()
    }

    /// The path of the output file.
    pub fn output_path(&self) -> (path: &str)
        ensures
            path@ == self@.output_path,
    {
        self.output_path.as_str()
    }

    /// Begins a download: a transfer of the URL to the output path that has
    /// done nothing yet and watches this downloader's signal, and its first
    /// action, which is to look at the output path.
    pub fn download(&self) -> (res: (Transfer, Action))
        ensures
            res.0@.source_url == self@.url,
            res.0@.output_path == self@.output_path,
            res.0@.token == self@.token,
            res.0@.state == initial(),
            res.1@ == ActionView::Inspect,
    {
        Transfer::new(self.url.clone(), self.output_path.clone(), self.token.clone())
    }
}

} // verus!
