//! Languages: a named word list. Built-ins ship with the library; user
//! lists (read from TOML files by the application) override them by name.

use vstd::prelude::*;

use crate::registry::{Catalog, Named};
use crate::text::{from_chars, split_whitespace, to_chars, to_string, tokens};

verus! {

#[derive(Debug, Clone, PartialEq, Eq)]
pub enum LanguageError {
    /// The file is not valid TOML for a language (the parser's message).
    Parse(String),
    /// The named language has no words.
    Empty(String),
}

#[derive(Debug, Clone, PartialEq, Eq)]
pub struct Language {
    /// Identifier used in commands and config, e.g. `english_1k`.
    pub name: String,
    /// Human-readable label, e.g. `English 1k`.
    pub display: String,
    pub words: Vec<String>,
}

impl Named for Language {
    open spec fn key(&self) -> Seq<char> {
        self.name@
    }

    fn name_chars(&self) -> (r: Vec<char>) {
        to_chars(self.name.as_str())
    }
}

/// The views of a list of strings.
pub open spec fn string_views(v: Seq<String>) -> Seq<Seq<char>> {
    v.map_values(|s: String| s@)
}

impl Language {
    /// A language from its fields as read from a file: an empty word list
    /// is refused, and an empty display label becomes the name.
    pub fn from_parts(name: String, display: String, words: Vec<String>) -> (r: Result<
        Self,
        LanguageError,
    >)
        ensures
            words@.len() == 0 <==> r is Err,
            r matches Err(e) ==> e matches LanguageError::Empty(n) && n@ == name@,
            r matches Ok(l) ==> l.name@ == name@ && l.words@ == words@ && l.display@ == if display@.len()
                == 0 {
                name@
            } else {
                display@
            },
    {
        if words.len() == 0 {
            return Err(LanguageError::Empty(name));
        }
        let display = if display.as_str().unicode_len() == 0 {
            name.clone()
        } else {
            display
        };
        Ok(Language { name, display, words })
    }
}

/// The words of the built-in `english` list.
pub const ENGLISH: &'static str = "the be of and a to in he have it that for they with as not on she at by this we you do but \
     from or which one would all will there say who make when can more if no man out other so \
     what time up go about than into could state only new year some take come these know see \
     use get like then first any work now may such give over think most even find day also \
     after way many must look before great back through long where much should well people down \
     own just because good each those feel seem how high too place little world very still \
     nation hand old life tell write become here show house both between need mean call develop \
     under last right move thing general school never same another begin while number part turn \
     real leave might want point form off child few small since against ask late home interest \
     large person end open public follow during present without again hold govern around \
     possible head consider word program problem however lead system set order eye plan run \
     keep face fact group play stand increase early course change help line country";

/// The words of the built-in `english_1k` list.
pub const ENGLISH_1K: &'static str = "the of to and a in is it you that he was for on are with as his they be at one have this \
     from or had by not word but what some we can out other were all there when up use your how \
     said an each she which do their time if will way about many then them write would like so \
     these her long make thing see him two has look more day could go come did number sound no \
     most people my over know water than call first who may down side been now find any new \
     work part take get place made live where after back little only round man year came show \
     every good me give our under name very through just form sentence great think say help low \
     line differ turn cause much mean before move right boy old too same tell does set three \
     want air well also play small end put home read hand pier large spell add even land here \
     must big high such follow act why ask men change went light kind off need house picture \
     try us again animal point mother world near build self earth father head stand own page \
     should country found answer school grow study still learn plant cover food sun four \
     between state keep eye never last let thought city tree cross farm hard start might story \
     saw far sea draw left late run while press close night real life few north open seem \
     together next white children begin got walk example ease paper group always music those \
     both mark often letter until mile river car feet care second book carry took science eat \
     room friend began idea fish mountain stop once base hear horse cut sure watch color face \
     wood main enough plain girl usual young ready above ever red list though feel talk bird \
     soon body dog family direct pose leave song measure door product black short numeral class \
     wind question happen complete ship area half rock order fire south problem piece told knew \
     pass since top whole king space heard best hour better true during hundred five remember \
     step early hold west ground interest reach fast verb sing listen six table travel less \
     morning ten simple several vowel toward war lay against pattern slow center love person \
     money serve appear road map rain rule govern pull cold notice voice unit power town fine \
     certain fly fall lead cry dark machine note wait plan figure star box noun field rest \
     correct able pound done beauty drive stood contain front teach week final gave green quick \
     develop ocean warm free minute strong special mind behind clear tail produce fact street \
     inch multiply nothing course stay wheel full force blue object decide surface deep moon \
     island foot system busy test record boat common gold possible plane stead dry wonder laugh \
     thousand ago ran check game shape equate hot miss brought heat snow tire bring yes distant \
     fill east paint language among grand ball yet wave drop heart present heavy dance engine \
     position arm wide sail material size vary settle speak weight general ice matter circle \
     pair include divide syllable felt perhaps pick sudden count square reason length represent \
     art subject region energy hunt probable bed brother egg ride cell believe fraction forest \
     sit race window store summer train sleep prove lone leg exercise wall catch mount wish sky \
     board joy winter sat written wild instrument kept glass grass cow job edge sign visit past \
     soft fun bright gas weather month million bear finish happy hope flower clothe strange \
     gone jump baby eight village meet root buy raise solve metal whether push seven paragraph \
     third shall held hair describe cook floor either result burn hill safe cat century \
     consider type law bit coast copy phrase silent tall sand soil roll temperature finger \
     industry value fight lie beat excite natural view sense ear else quite broke case middle \
     kill son lake moment scale loud spring observe child straight consonant nation dictionary \
     milk speed method organ pay age section dress cloud surprise quiet stone tiny climb cool \
     design poor lot experiment bottom key iron single stick flat twenty skin smile crease hole \
     trade melody trip office receive row mouth exact symbol die least trouble shout except \
     wrote seed tone join suggest clean break lady yard rise bad blow oil blood touch grew cent \
     mix team wire cost lost brown wear garden equal sent choose fell fit flow fair bank \
     collect save control decimal gentle woman captain practice separate difficult doctor \
     please protect noon whose locate ring character insect caught period indicate radio spoke \
     atom human history effect electric expect crop modern element hit student corner party \
     supply bone rail imagine provide agree thus capital chair danger fruit rich thick soldier \
     process operate guess necessary sharp wing create neighbor wash bat rather crowd corn \
     compare poem string bell depend meat rub tube famous dollar stream fear sight thin \
     triangle planet hurry chief colony clock mine tie enter major fresh search send yellow gun \
     allow print dead spot desert suit current lift rose continue block chart hat sell success \
     company subtract event particular deal swim term opposite wife shoe shoulder spread \
     arrange camp invent cotton born determine quart nine truck noise level chance gather shop \
     stretch throw shine property column molecule select wrong gray repeat require broad \
     prepare salt nose plural anger claim continent oxygen sugar death pretty skill women \
     season solution magnet silver thank branch match suffix especially fig afraid huge sister \
     steel discuss forward similar guide experience score apple bought led pitch coat mass card \
     band rope slip win dream evening condition feed tool total basic smell valley nor double \
     seat arrive master track parent shore division sheet substance favor connect post spend \
     chord fat glad orchard share station dad bread charge proper bar offer segment slave duck \
     instant market degree populate chick dear enemy reply drink occur support speech nature \
     range steam motion path liquid log meant quotient teeth shell neck";

fn word_strings(text: &str) -> (r: Vec<String>)
    ensures
        string_views(r@) == tokens(text@),
{
    let v = to_chars(text);
    let parts = split_whitespace(&v);
    let mut r: Vec<String> = Vec::new();
    let mut i: usize = 0;
    while i < parts.len()
        invariant
            i <= parts@.len(),
            parts@.len() == tokens(v@).len(),
            forall|j: int| 0 <= j < parts@.len() ==> (#[trigger] parts@[j])@ == tokens(v@)[j],
            r@.len() == i,
            forall|j: int| 0 <= j < i ==> (#[trigger] r@[j])@ == parts@[j]@,
        decreases parts@.len() - i,
    {
        r.push(from_chars(&parts[i]));
        i = i + 1;
    }
    assert(string_views(r@) =~= tokens(text@));
    r
}

/// A built-in language.
fn builtin_language(name: &str, display: &str, text: &str) -> (l: Language)
    ensures
        l.name@ == name@,
        l.display@ == display@,
        string_views(l.words@) == tokens(text@),
{
    Language { name: to_string(name), display: to_string(display), words: word_strings(text) }
}

#[derive(Debug)]
pub struct LanguageRegistry {
    languages: Catalog<Language>,
}

impl View for LanguageRegistry {
    type V = Map<Seq<char>, Language>;

    closed spec fn view(&self) -> Map<Seq<char>, Language> {
        self.languages.view()
    }
}

impl LanguageRegistry {
    pub closed spec fn wf(&self) -> bool {
        self.languages.wf()
    }

    /// An empty registry.
    pub fn new() -> (r: Self)
        ensures
            r.wf(),
            r@ == Map::<Seq<char>, Language>::empty(),
    {
        LanguageRegistry { languages: Catalog::new() }
    }

    /// Built-ins only: `english` and `english_1k`.
    pub fn builtin() -> (r: Self)
        ensures
            r.wf(),
            r@.dom() == set!["english"@, "english_1k"@],
            r@["english"@].display@ == "English"@,
            string_views(r@["english"@].words@) == tokens(ENGLISH@),
            r@["english_1k"@].display@ == "English 1k"@,
            string_views(r@["english_1k"@].words@) == tokens(ENGLISH_1K@),
    {
        let mut reg = Self::new();
        let english = builtin_language("english", "English", ENGLISH);
        reg.insert(english);
        reg.insert(builtin_language("english_1k", "English 1k", ENGLISH_1K));
        proof {
            reveal_strlit("english");
            reveal_strlit("english_1k");
            assert("english"@.len() == 7);
            assert("english_1k"@.len() == 10);
            assert("english"@ != "english_1k"@);
        }
        assert(reg@.dom() =~= set!["english"@, "english_1k"@]);
        reg
    }

    /// Adds `lang`, replacing a language of the same name.
    pub fn insert(&mut self, lang: Language)
        requires
            old(self).wf(),
        ensures
            final(self).wf(),
            final(self)@ == old(self)@.insert(lang.name@, lang),
            final(self)@.dom().finite(),
            final(self)@.dom().len() == old(self)@.dom().len() + if old(self)@.contains_key(lang.name@) {
                0int
            } else {
                1int
            },
    {
        self.languages.insert(lang);
    }

    pub fn get(&self, name: &str) -> (r: Option<&Language>)
        requires
            self.wf(),
        ensures
            r is Some <==> self@.contains_key(name@),
            r matches Some(l) ==> *l == self@[name@],
    {
        self.languages.get(name)
    }

    /// `name` if present, otherwise `english`.
    pub fn get_or_default(&self, name: &str) -> (l: &Language)
        requires
            self.wf(),
            self@.contains_key(name@) || self@.contains_key("english"@),
        ensures
            *l == if self@.contains_key(name@) {
                self@[name@]
            } else {
                self@["english"@]
            },
    {
        match self.languages.get(name) {
            Some(l) => l,
            None => self.languages.get("english").unwrap(),
        }
    }

    /// The language names, sorted.
    pub fn names(&self) -> (r: Vec<String>)
        requires
            self.wf(),
        ensures
            r@.len() == self@.dom().len(),
            forall|i: int| 0 <= i < r@.len() ==> self@.contains_key(#[trigger] r@[i]@),
            forall|i: int, j: int|
                0 <= i < j < r@.len() ==> crate::text::lex_lt(#[trigger] r@[i]@, #[trigger] r@[j]@),
    {
        let keys = self.languages.keys();
        let n = self.languages.len();
        let mut r: Vec<String> = Vec::new();
        let mut i: usize = 0;
        while i < keys.len()
            invariant
                i <= keys@.len(),
                r@.len() == i,
                forall|j: int| 0 <= j < i ==> (#[trigger] r@[j])@ == keys@[j]@,
            decreases keys@.len() - i,
        {
            r.push(from_chars(&keys[i]));
            i = i + 1;
        }
        proof {
            assert forall|j: int| 0 <= j < r@.len() implies self@.contains_key(#[trigger] r@[j]@) by {
                crate::registry::lemma_at_key_index(self.languages.items(), j);
            }
        }
        r
    }
}

} // verus!
