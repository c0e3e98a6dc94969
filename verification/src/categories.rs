//! Categories by which the list views filter, and the orders by which they sort.
use vstd::prelude::*;
use vstd::string::*;
use crate::text::str_eq;
use crate::i18n::{gettext, no_nul};
use crate::pages::quoted_error;

verus! {

/// A category that the filter of a list view can select.
#[derive(Debug, Clone, Copy, PartialEq, Eq, Structural)]
pub enum Category {
    Favorite,
    Title,
    Year,
    Cd,
    TrackNumber,
    Artist,
    Album,
    Genre,
    DurationMin,
    DurationSec,
    BitRate,
    AlbumCount,
}

/// The name of a category, which is also its untranslated label.
pub open spec fn category_name(c: Category) -> Seq<char> {
    match c {
        Category::Favorite => "Favorite"@,
        Category::Title => "Title"@,
        Category::Year => "Year"@,
        Category::Cd => "CD"@,
        Category::TrackNumber => "Track Number"@,
        Category::Artist => "Artist"@,
        Category::Album => "Album"@,
        Category::Genre => "Genre"@,
        Category::DurationMin => "Length (min)"@,
        Category::DurationSec => "Length (sec)"@,
        Category::BitRate => "Bit Rate"@,
        Category::AlbumCount => "Album Count"@,
    }
}

impl Category {
    /// The untranslated label of the category.
    pub fn name(&self) -> (r: &'static str)
        ensures
            r@ == category_name(*self),
    {
        match self {
            Category::Favorite => "Favorite",
            Category::Title => "Title",
            Category::Year => "Year",
            Category::Cd => "CD",
            Category::TrackNumber => "Track Number",
            Category::Artist => "Artist",
            Category::Album => "Album",
            Category::Genre => "Genre",
            Category::DurationMin => "Length (min)",
            Category::DurationSec => "Length (sec)",
            Category::BitRate => "Bit Rate",
            Category::AlbumCount => "Album Count",
        }
    }

    /// The name of the category.
    pub fn to_string(&self) -> (r: String)
        ensures
            r@ == category_name(*self),
    {
        String::from_str(self.name())
    }

    /// The label shown for the category: its name, translated.
    pub fn translate(&self) -> String {
        let name = self.name();
        proof {
            reveal_strlit("Favorite");
            reveal_strlit("Title");
            reveal_strlit("Year");
            reveal_strlit("CD");
            reveal_strlit("Track Number");
            reveal_strlit("Artist");
            reveal_strlit("Album");
            reveal_strlit("Genre");
            reveal_strlit("Length (min)");
            reveal_strlit("Length (sec)");
            reveal_strlit("Bit Rate");
            reveal_strlit("Album Count");
        }
        gettext(name)
    }

    /// The category named `value`; an error that quotes `value` otherwise.
    pub fn try_from(value: String) -> (r: Result<Category, String>)
        ensures
            r matches Ok(c) ==> category_name(c) == value@,
            r is Err <==> forall|c: Category| category_name(c) != value@,
            r matches Err(e) ==> e@ == quoted_error(value@, " is not a State"@),
    {
        let v = value.as_str();
        let all = Category::all_kinds();
        let mut i: usize = 0;
        while i < all.len()
            invariant
                0 <= i <= all@.len(),
                all@ == category_kinds(),
                v@ == value@,
                forall|j: int| 0 <= j < i ==> category_name(#[trigger] all@[j]) != v@,
            decreases all@.len() - i,
        {
            let c = all[i];
            if str_eq(v, c.name()) {
                return Ok(c);
            }
            i = i + 1;
        }
        proof {
            assert forall|c: Category| category_name(c) != value@ by {
                lemma_all_kinds(c);
                let j = choose|j: int| 0 <= j < category_kinds().len() && category_kinds()[j] == c;
            }
        }
        let mut e = String::from_str("\"");
        e.append(v);
        e.append("\" is not a State");
        proof {
            reveal_strlit("\"");
            reveal_strlit("\" is not a State");
            reveal_strlit(" is not a State");
            assert(e@ =~= quoted_error(value@, " is not a State"@));
        }
        Err(e)
    }

    /// Every category.
    fn all_kinds() -> (r: Vec<Category>)
        ensures
            r@ == category_kinds(),
    {
        let r = vec![
            Category::Favorite,
            Category::Title,
            Category::Year,
            Category::Cd,
            Category::TrackNumber,
            Category::Artist,
            Category::Album,
            Category::Genre,
            Category::DurationMin,
            Category::DurationSec,
            Category::BitRate,
            Category::AlbumCount,
        ];
        proof {
            assert(r@ =~= category_kinds());
        }
        r
    }

    /// The categories offered for tracks.
    pub fn tracks() -> (r: Vec<Category>)
        ensures
            r@ == seq![
                Category::Title,
                Category::Year,
                Category::Cd,
                Category::TrackNumber,
                Category::Artist,
                Category::Album,
                Category::Genre,
                Category::DurationSec,
                Category::BitRate,
            ],
    {
        let r = vec![
            Category::Title,
            Category::Year,
            Category::Cd,
            Category::TrackNumber,
            Category::Artist,
            Category::Album,
            Category::Genre,
            Category::DurationSec,
            Category::BitRate,
        ];
        proof {
            assert(r@ =~= seq![
                Category::Title,
                Category::Year,
                Category::Cd,
                Category::TrackNumber,
                Category::Artist,
                Category::Album,
                Category::Genre,
                Category::DurationSec,
                Category::BitRate,
            ]);
        }
        r
    }

    /// The categories offered for artists.
    pub fn artists() -> (r: Vec<Category>)
        ensures
            r@ == seq![Category::Artist, Category::AlbumCount],
    {
        let r = vec![Category::Artist, Category::AlbumCount];
        proof {
            assert(r@ =~= seq![Category::Artist, Category::AlbumCount]);
        }
        r
    }

    /// The categories offered for albums.
    pub fn albums() -> (r: Vec<Category>)
        ensures
            r@ == seq![
                Category::Album,
                Category::Artist,
                Category::Year,
                Category::Cd,
                Category::Genre,
                Category::DurationMin,
            ],
    {
        let r = vec![
            Category::Album,
            Category::Artist,
            Category::Year,
            Category::Cd,
            Category::Genre,
            Category::DurationMin,
        ];
        proof {
            assert(r@ =~= seq![
                Category::Album,
                Category::Artist,
                Category::Year,
                Category::Cd,
                Category::Genre,
                Category::DurationMin,
            ]);
        }
        r
    }
}

/// Every category, in declaration order.
pub open spec fn category_kinds() -> Seq<Category> {
    seq![
        Category::Favorite,
        Category::Title,
        Category::Year,
        Category::Cd,
        Category::TrackNumber,
        Category::Artist,
        Category::Album,
        Category::Genre,
        Category::DurationMin,
        Category::DurationSec,
        Category::BitRate,
        Category::AlbumCount,
    ]
}

proof fn lemma_all_kinds(c: Category)
    ensures
        exists|j: int| 0 <= j < category_kinds().len() && category_kinds()[j] == c,
{
    match c {
        Category::Favorite => assert(category_kinds()[0] == c),
        Category::Title => assert(category_kinds()[1] == c),
        Category::Year => assert(category_kinds()[2] == c),
        Category::Cd => assert(category_kinds()[3] == c),
        Category::TrackNumber => assert(category_kinds()[4] == c),
        Category::Artist => assert(category_kinds()[5] == c),
        Category::Album => assert(category_kinds()[6] == c),
        Category::Genre => assert(category_kinds()[7] == c),
        Category::DurationMin => assert(category_kinds()[8] == c),
        Category::DurationSec => assert(category_kinds()[9] == c),
        Category::BitRate => assert(category_kinds()[10] == c),
        Category::AlbumCount => assert(category_kinds()[11] == c),
    }
}

/// Distinct categories have distinct names, so parsing a category's name gives the category.
pub proof fn law_category_names_distinct(a: Category, b: Category)
    ensures
        category_name(a) == category_name(b) ==> a == b,
{
    reveal_strlit("Favorite");
    reveal_strlit("Title");
    reveal_strlit("Year");
    reveal_strlit("CD");
    reveal_strlit("Track Number");
    reveal_strlit("Artist");
    reveal_strlit("Album");
    reveal_strlit("Genre");
    reveal_strlit("Length (min)");
    reveal_strlit("Length (sec)");
    reveal_strlit("Bit Rate");
    reveal_strlit("Album Count");
    if category_name(a) == category_name(b) {
        let n = category_name(a);
        let m = category_name(b);
        assert(n.len() == m.len());
        assert(n[0] == m[0]);
        if n.len() == 12 {
            assert(n[8] == m[8]);
        }
        match a {
            Category::Favorite => {},
            Category::Title => {},
            Category::Year => {},
            Category::Cd => {},
            Category::TrackNumber => {},
            Category::Artist => {},
            Category::Album => {},
            Category::Genre => {},
            Category::DurationMin => {},
            Category::DurationSec => {},
            Category::BitRate => {},
            Category::AlbumCount => {},
        }
    }
}

/// An order in which albums or artists are listed.
#[derive(Debug, Clone, Copy, PartialEq, Eq, Structural)]
pub enum SortBy {
    Alphabetical,
    AlphabeticalRev,
    Release,
    ReleaseRev,
    RecentlyAdded,
    RecentlyAddedRev,
    MostAlbums,
    MostAlbumsRev,
}

/// The untranslated label of a sort order.
pub open spec fn sort_by_label(s: SortBy) -> Seq<char> {
    match s {
        SortBy::Alphabetical => "A-Z"@,
        SortBy::AlphabeticalRev => "Z-A"@,
        SortBy::Release => "Newest Release"@,
        SortBy::ReleaseRev => "Oldest Release"@,
        SortBy::RecentlyAdded => "Recently added"@,
        SortBy::RecentlyAddedRev => "Longest available"@,
        SortBy::MostAlbums => "Most Albums"@,
        SortBy::MostAlbumsRev => "Least Albums"@,
    }
}

impl SortBy {
    /// The untranslated label.
    pub fn label(&self) -> (r: &'static str)
        ensures
            r@ == sort_by_label(*self),
    {
        match self {
            SortBy::Alphabetical => "A-Z",
            SortBy::AlphabeticalRev => "Z-A",
            SortBy::Release => "Newest Release",
            SortBy::ReleaseRev => "Oldest Release",
            SortBy::RecentlyAdded => "Recently added",
            SortBy::RecentlyAddedRev => "Longest available",
            SortBy::MostAlbums => "Most Albums",
            SortBy::MostAlbumsRev => "Least Albums",
        }
    }

    /// The label shown for the order: its untranslated label, translated.
    pub fn translate(&self) -> String {
        let l = self.label();
        proof {
            reveal_strlit("A-Z");
            reveal_strlit("Z-A");
            reveal_strlit("Newest Release");
            reveal_strlit("Oldest Release");
            reveal_strlit("Recently added");
            reveal_strlit("Longest available");
            reveal_strlit("Most Albums");
            reveal_strlit("Least Albums");
        }
        gettext(l)
    }

    /// The order labelled `value`; an error that quotes `value` otherwise.
    pub fn try_from(value: String) -> (r: Result<SortBy, String>)
        ensures
            r matches Ok(s) ==> sort_by_label(s) == value@,
            r is Err <==> forall|s: SortBy| sort_by_label(s) != value@,
            r matches Err(e) ==> e@ == quoted_error(value@, " is not a SortBy"@),
    {
        let v = value.as_str();
        let all = vec![
            SortBy::Alphabetical,
            SortBy::AlphabeticalRev,
            SortBy::Release,
            SortBy::ReleaseRev,
            SortBy::RecentlyAdded,
            SortBy::RecentlyAddedRev,
            SortBy::MostAlbums,
            SortBy::MostAlbumsRev,
        ];
        let ghost kinds = all@;
        let mut i: usize = 0;
        while i < all.len()
            invariant
                0 <= i <= all@.len(),
                all@ == kinds,
                v@ == value@,
                forall|j: int| 0 <= j < i ==> sort_by_label(#[trigger] all@[j]) != v@,
            decreases all@.len() - i,
        {
            let c = all[i];
            if str_eq(v, c.label()) {
                return Ok(c);
            }
            i = i + 1;
        }
        proof {
            assert forall|s: SortBy| sort_by_label(s) != value@ by {
                match s {
                    SortBy::Alphabetical => assert(kinds[0] == s),
                    SortBy::AlphabeticalRev => assert(kinds[1] == s),
                    SortBy::Release => assert(kinds[2] == s),
                    SortBy::ReleaseRev => assert(kinds[3] == s),
                    SortBy::RecentlyAdded => assert(kinds[4] == s),
                    SortBy::RecentlyAddedRev => assert(kinds[5] == s),
                    SortBy::MostAlbums => assert(kinds[6] == s),
                    SortBy::MostAlbumsRev => assert(kinds[7] == s),
                }
            }
        }
        let mut e = String::from_str("\"");
        e.append(v);
        e.append("\" is not a SortBy");
        proof {
            reveal_strlit("\"");
            reveal_strlit("\" is not a SortBy");
            reveal_strlit(" is not a SortBy");
            assert(e@ =~= quoted_error(value@, " is not a SortBy"@));
        }
        Err(e)
    }

    /// The orders offered for artists.
    pub fn artists_store() -> (r: Vec<SortBy>)
        ensures
            r@ == seq![SortBy::Alphabetical, SortBy::AlphabeticalRev, SortBy::MostAlbums, SortBy::MostAlbumsRev],
    {
        let r = vec![SortBy::Alphabetical, SortBy::AlphabeticalRev, SortBy::MostAlbums, SortBy::MostAlbumsRev];
        proof {
            assert(r@ =~= seq![SortBy::Alphabetical, SortBy::AlphabeticalRev, SortBy::MostAlbums, SortBy::MostAlbumsRev]);
        }
        r
    }

    /// The orders offered for albums.
    pub fn albums_store() -> (r: Vec<SortBy>)
        ensures
            r@ == seq![
                SortBy::Alphabetical,
                SortBy::AlphabeticalRev,
                SortBy::Release,
                SortBy::ReleaseRev,
                SortBy::RecentlyAdded,
                SortBy::RecentlyAddedRev,
            ],
    {
        let r = vec![
            SortBy::Alphabetical,
            SortBy::AlphabeticalRev,
            SortBy::Release,
            SortBy::ReleaseRev,
            SortBy::RecentlyAdded,
            SortBy::RecentlyAddedRev,
        ];
        proof {
            assert(r@ =~= seq![
                SortBy::Alphabetical,
                SortBy::AlphabeticalRev,
                SortBy::Release,
                SortBy::ReleaseRev,
                SortBy::RecentlyAdded,
                SortBy::RecentlyAddedRev,
            ]);
        }
        r
    }
}

/// Distinct sort orders have distinct labels, so parsing an order's label gives the order.
pub proof fn law_sort_by_labels_distinct(a: SortBy, b: SortBy)
    ensures
        sort_by_label(a) == sort_by_label(b) ==> a == b,
{
    reveal_strlit("A-Z");
    reveal_strlit("Z-A");
    reveal_strlit("Newest Release");
    reveal_strlit("Oldest Release");
    reveal_strlit("Recently added");
    reveal_strlit("Longest available");
    reveal_strlit("Most Albums");
    reveal_strlit("Least Albums");
    if sort_by_label(a) == sort_by_label(b) {
        let n = sort_by_label(a);
        let m = sort_by_label(b);
        assert(n.len() == m.len());
        assert(n[0] == m[0]);
        match a {
            SortBy::Alphabetical => {},
            SortBy::AlphabeticalRev => {},
            SortBy::Release => {},
            SortBy::ReleaseRev => {},
            SortBy::RecentlyAdded => {},
            SortBy::RecentlyAddedRev => {},
            SortBy::MostAlbums => {},
            SortBy::MostAlbumsRev => {},
        }
    }
}

} // verus!
