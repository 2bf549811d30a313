//! The simple English word list.
use vstd::prelude::*;

use super::{
    borrowed_views, lemma_words_between_step, lengths_within, parse_word_lines, string_views, word_lines,
    words_between, WordList,
};

verus! {

/// The built-in dictionary: one word per line.
pub const SIMPLE_EN: &'static str = "able\nacid\nangry\napple\narmy\nbaby\nbasket\nberry\nbird\nblue\nboat\nbottle\nbrain\nbread\nbrick\nbridge\nbright\nbrush\nbucket\ncake\ncamera\ncandle\ncard\ncarpet\ncastle\ncloud\ncoat\ncotton\ncrown\ndesk\ndoor\ndragon\ndream\ndrum\neagle\nearth\nengine\nfarm\nfeather\nfield\nfish\nflag\nflower\nforest\nfrog\ngarden\nglass\nglove\ngoat\ngrape\ngreen\nhammer\nharbor\nhorse\nisland\njacket\njelly\nkettle\nkitten\nladder\nlemon\nletter\nlight\nlion\nmango\nmarble\nmirror\nmonkey\nmoon\nnail\nnight\nocean\norange\npaper\npencil\npepper\npiano\npillow\nplanet\npocket\npotato\nrabbit\nriver\nrobot\nrocket\nsalad\nsilver\nsnake\nspoon\nstone\nsugar\ntable\ntiger\ntoast\ntrain\ntree\ntulip\nvalley\nviolin\nwagon\nwater\nwhale\nwindow\nwinter\nyellow\nzebra\n";

/// A word list read from the built-in simple English dictionary.
pub struct SimpleEnglish(Vec<String>);

impl SimpleEnglish {
    /// The words of the list, in dictionary order.
    pub closed spec fn words(&self) -> Seq<Seq<char>> {
        string_views(self.0@)
    }

    /// A word list made of the non-blank lines of the built-in dictionary.
    pub fn new() -> (r: SimpleEnglish)
        ensures
            r.words() == word_lines(SIMPLE_EN@),
    {
        SimpleEnglish::from_text(SIMPLE_EN)
    }

    /// A word list made of the non-blank lines of `text`, one word per line.
    pub fn from_text(text: &str) -> (r: SimpleEnglish)
        ensures
            r.words() == word_lines(text@),
    {
        SimpleEnglish(parse_word_lines(text))
    }

    /// All the words of the list whose length, in characters, lies in
    /// `[min_len, max_len]`, in dictionary order.
    pub fn words_within(&self, min_len: u8, max_len: u8) -> (r: Vec<&String>)
        ensures
            borrowed_views(r@) == words_between(self.words(), min_len, max_len),
    {
        let words = &self.0;
        let mut r: Vec<&String> = Vec::new();
        let mut i: usize = 0;
        proof {
            assert(string_views(words@).take(0) =~= Seq::<Seq<char>>::empty());
            reveal(Seq::filter);
            assert(borrowed_views(r@) =~= words_between(string_views(words@).take(0), min_len, max_len));
        }
        while i < words.len()
            invariant
                words == &self.0,
                i <= words@.len(),
                borrowed_views(r@) == words_between(string_views(words@).take(i as int), min_len, max_len),
            decreases words@.len() - i,
        {
            let ghost before = string_views(words@).take(i as int);
            let word = &words[i];
            let n = word.as_str().unicode_len();
            proof {
                assert(string_views(words@).take(i + 1).drop_last() =~= before);
                lemma_words_between_step(string_views(words@).take(i + 1), min_len, max_len);
            }
            if min_len as usize <= n && n <= max_len as usize {
                r.push(word);
                assert(borrowed_views(r@) =~= words_between(before, min_len, max_len).push(word@));
            }
            i += 1;
        }
        assert(string_views(words@).take(i as int) =~= string_views(words@));
        r
    }
}

/// Every word that `words_between` keeps lies within the bounds.
pub proof fn lemma_words_between_within(words: Seq<Seq<char>>, min_len: u8, max_len: u8)
    ensures
        lengths_within(words_between(words, min_len, max_len), min_len, max_len),
    decreases words.len(),
{
    if words.len() > 0 {
        lemma_words_between_within(words.drop_last(), min_len, max_len);
        lemma_words_between_step(words, min_len, max_len);
    }
}

impl WordList for SimpleEnglish {
    open spec fn candidates(&self, min_len: u8, max_len: u8) -> Seq<Seq<char>> {
        words_between(self.words(), min_len, max_len)
    }

    fn get_words(&self, min_len: u8, max_len: u8) -> (r: Vec<&String>) {
        proof {
            lemma_words_between_within(self.words(), min_len, max_len);
        }
        self.words_within(min_len, max_len)
    }
}

} // verus!
