//! One row of the filter panel: its category, the filter it states, and the parsing of the
//! numbers typed into it; the collection of the filters of a filter box.
use vstd::prelude::*;
use vstd::string::*;

verus! {

broadcast use vstd::seq_lib::group_seq_properties;

/// A category a filter row can filter by.
#[derive(Debug, Clone, Copy, PartialEq, Eq, Structural)]
pub enum Category {
    Title,
    Year,
    Cd,
    TrackNumber,
    Artist,
    Album,
    Genre,
    Duration,
    BitRate,
}

/// The label of a category.
pub open spec fn category_label(c: Category) -> Seq<char> {
    match c {
        Category::Title => "Title"@,
        Category::Year => "Year"@,
        Category::Cd => "Cd"@,
        Category::TrackNumber => "Track Number"@,
        Category::Artist => "Artist"@,
        Category::Album => "Album"@,
        Category::Genre => "Genre"@,
        Category::Duration => "Duration"@,
        Category::BitRate => "Bit Rate"@,
    }
}

/// The name of the page of a category in the row's stack.
pub open spec fn category_page(c: Category) -> Seq<char> {
    match c {
        Category::Title => "title"@,
        Category::Year => "year"@,
        Category::Cd => "cd"@,
        Category::TrackNumber => "track_number"@,
        Category::Artist => "artist"@,
        Category::Album => "Album"@,
        Category::Genre => "genre"@,
        Category::Duration => "duration"@,
        Category::BitRate => "bit_rate"@,
    }
}

impl Category {
    /// Every category, in declaration order.
    pub fn all() -> (r: Vec<Category>)
        ensures
            r@ == seq![
                Category::Title,
                Category::Year,
                Category::Cd,
                Category::TrackNumber,
                Category::Artist,
                Category::Album,
                Category::Genre,
                Category::Duration,
                Category::BitRate,
            ],
    {
        let r = vec![
            Category::Title,
            Category::Year,
            Category::Cd,
            Category::TrackNumber,
            Category::Artist,
            Category::Album,
            Category::Genre,
            Category::Duration,
            Category::BitRate,
        ];
        proof {
            assert(r@ =~= seq![
                Category::Title,
                Category::Year,
                Category::Cd,
                Category::TrackNumber,
                Category::Artist,
                Category::Album,
                Category::Genre,
                Category::Duration,
                Category::BitRate,
            ]);
        }
        r
    }

    /// The categories offered in the albums view.
    pub fn albums_view() -> (r: Vec<Category>)
        ensures
            r@ == seq![
                Category::Title,
                Category::Year,
                Category::Cd,
                Category::Artist,
                Category::Album,
                Category::Genre,
                Category::Duration,
            ],
    {
        let r = vec![
            Category::Title,
            Category::Year,
            Category::Cd,
            Category::Artist,
            Category::Album,
            Category::Genre,
            Category::Duration,
        ];
        proof {
            assert(r@ =~= seq![
                Category::Title,
                Category::Year,
                Category::Cd,
                Category::Artist,
                Category::Album,
                Category::Genre,
                Category::Duration,
            ]);
        }
        r
    }

    /// The name of the category's page in the row's stack.
    pub fn to_str(&self) -> (r: &'static str)
        ensures
            r@ == category_page(*self),
    {
        match self {
            Category::Title => "title",
            Category::Year => "year",
            Category::Cd => "cd",
            Category::TrackNumber => "track_number",
            Category::Artist => "artist",
            Category::Album => "Album",
            Category::Genre => "genre",
            Category::Duration => "duration",
            Category::BitRate => "bit_rate",
        }
    }

    /// The label of the category.
    pub fn to_string(&self) -> (r: String)
        ensures
            r@ == category_label(*self),
    {
        let s = match self {
            Category::Title => "Title",
            Category::Year => "Year",
            Category::Cd => "Cd",
            Category::TrackNumber => "Track Number",
            Category::Artist => "Artist",
            Category::Album => "Album",
            Category::Genre => "Genre",
            Category::Duration => "Duration",
            Category::BitRate => "Bit Rate",
        };
        String::from_str(s)
    }

    /// The categories of a list, as a drop-down lists them.
    pub fn store(categories: Vec<Category>) -> (r: Vec<Category>)
        ensures
            r@ == categories@,
    {
        categories
    }
}

/// How a number compares in a filter: greater than, equal to, or less than its bound.
#[derive(Debug, Clone, Copy, PartialEq, Eq, Structural)]
pub enum Order {
    Less,
    Equal,
    Greater,
}

/// A filter a row states.
#[derive(Debug, Clone, PartialEq, Eq)]
pub enum Filter {
    Favorite(bool),
    Title(String),
    Year(Order, usize),
    Cd(Order, usize),
    TrackNumber(Order, usize),
    Artist(String),
    Album(String),
    Genre(String),
    BitRate(Order, usize),
    Duration(Order, usize),
}

/// An entry of the drop-down of orders: the order and its label.
#[derive(Debug, Clone)]
pub struct OrderRow {
    pub order: Order,
    pub label: String,
}

impl OrderRow {
    /// The entries of the drop-down of orders.
    pub fn store() -> (r: Vec<OrderRow>)
        ensures
            r@.len() == 3,
            r@[0].order == Order::Greater && r@[0].label@ == "greater than"@,
            r@[1].order == Order::Equal && r@[1].label@ == "equal to"@,
            r@[2].order == Order::Less && r@[2].label@ == "less than"@,
    {
        let mut r = Vec::new();
        r.push(OrderRow { order: Order::Greater, label: String::from_str("greater than") });
        r.push(OrderRow { order: Order::Equal, label: String::from_str("equal to") });
        r.push(OrderRow { order: Order::Less, label: String::from_str("less than") });
        r
    }
}

/// The value of the decimal digits `d`.
pub open spec fn digits_value(d: Seq<char>) -> nat
    decreases d.len(),
{
    if d.len() == 0 {
        0
    } else {
        digits_value(d.drop_last()) * 10 + ((d.last() as u32 - '0' as u32) as nat)
    }
}

/// Whether every character of `d` is an ASCII digit.
pub open spec fn all_digits(d: Seq<char>) -> bool {
    forall|i: int| 0 <= i < d.len() ==> '0' <= #[trigger] d[i] <= '9'
}

/// What parsing `s` as a `usize` gives: an optional `+` then at least one ASCII digit, with a
/// value that fits in a `usize`.
pub open spec fn parse_usize_spec(s: Seq<char>) -> Option<nat> {
    let d = digit_part(s);
    if d.len() > 0 && all_digits(d) && digits_value(d) <= usize::MAX {
        Some(digits_value(d))
    } else {
        None
    }
}

proof fn lemma_digits_value_mono(d: Seq<char>, k: int)
    requires
        0 <= k <= d.len(),
        all_digits(d),
    ensures
        digits_value(d.subrange(0, k)) <= digits_value(d),
    decreases d.len() - k,
{
    if k < d.len() {
        lemma_digits_value_mono(d, k + 1);
        assert(d.subrange(0, k + 1).drop_last() =~= d.subrange(0, k));
    } else {
        assert(d.subrange(0, k) =~= d);
    }
}

/// The characters after an optional leading `+`.
pub open spec fn digit_part(s: Seq<char>) -> Seq<char> {
    if s.len() > 0 && s[0] == '+' {
        s.skip(1)
    } else {
        s
    }
}

/// The value of the decimal digits `d`, none when a character is no digit or the value does
/// not fit in a `usize`.
fn parse_digits(s: &str, start: usize) -> (r: Option<usize>)
    requires
        start <= s@.len(),
    ensures
        ({
            let d = s@.subrange(start as int, s@.len() as int);
            &&& r matches Some(n) ==> all_digits(d) && digits_value(d) == n
            &&& r is None ==> !(all_digits(d) && digits_value(d) <= usize::MAX)
        }),
{
    let len = s.unicode_len();
    let ghost d = s@.subrange(start as int, len as int);
    let mut i: usize = start;
    let mut acc: usize = 0;
    while i < len
        invariant
            len == s@.len(),
            start <= i <= len,
            d == s@.subrange(start as int, len as int),
            all_digits(s@.subrange(start as int, i as int)),
            acc == digits_value(s@.subrange(start as int, i as int)),
        decreases len - i,
    {
        let c = s.get_char(i);
        if c < '0' || c > '9' {
            proof {
                assert(d[i - start] == c);
            }
            return None;
        }
        let digit = (c as u32 - '0' as u32) as usize;
        proof {
            assert(s@.subrange(start as int, i + 1).drop_last() =~= s@.subrange(start as int, i as int));
            assert(s@.subrange(start as int, i + 1).last() == c);
            lemma_all_digits_extend(s@, start as int, i as int);
        }
        let next = match acc.checked_mul(10) {
            Some(m) => m.checked_add(digit),
            None => None,
        };
        match next {
            Some(v) => {
                acc = v;
            },
            None => {
                proof {
                    if all_digits(d) {
                        lemma_digits_value_mono(d, i + 1 - start);
                        assert(d.subrange(0, i + 1 - start) =~= s@.subrange(start as int, i + 1));
                    }
                }
                return None;
            },
        }
        i = i + 1;
    }
    proof {
        assert(s@.subrange(start as int, i as int) =~= d);
    }
    Some(acc)
}

/// Parses a decimal number the way `str::parse::<usize>` does: an optional `+` followed by
/// ASCII digits, none on anything else or on overflow.
pub fn parse_usize(s: &str) -> (r: Option<usize>)
    ensures
        r matches Some(n) ==> parse_usize_spec(s@) == Some(n as nat),
        r is None ==> parse_usize_spec(s@) is None,
{
    let len = s.unicode_len();
    let start: usize = if len > 0 && s.get_char(0) == '+' { 1 } else { 0 };
    proof {
        assert(digit_part(s@) =~= s@.subrange(start as int, s@.len() as int));
    }
    if start >= len {
        return None;
    }
    parse_digits(s, start)
}

proof fn lemma_all_digits_extend(s: Seq<char>, start: int, i: int)
    requires
        0 <= start <= i < s.len(),
        all_digits(s.subrange(start, i)),
        '0' <= s[i] <= '9',
    ensures
        all_digits(s.subrange(start, i + 1)),
{
    assert forall|k: int| 0 <= k < i + 1 - start implies '0' <= #[trigger] s.subrange(start, i + 1)[k] <= '9' by {
        if k < i - start {
            assert(s.subrange(start, i + 1)[k] == s.subrange(start, i)[k]);
        }
    }
}

/// The filter a row states after a change of its parameters: the text typed for the text
/// categories; for the number categories the chosen order and the number typed, or none when
/// the text is no number.
pub open spec fn row_filter(category: Category, text: Seq<char>, order: Order) -> Option<FilterSpec> {
    match category {
        Category::Title => Some(FilterSpec::Title(text)),
        Category::Artist => Some(FilterSpec::Artist(text)),
        Category::Album => Some(FilterSpec::Album(text)),
        Category::Genre => Some(FilterSpec::Genre(text)),
        _ => match parse_usize_spec(text) {
            Some(n) => Some(match category {
                Category::Year => FilterSpec::Year(order, n),
                Category::Cd => FilterSpec::Cd(order, n),
                Category::TrackNumber => FilterSpec::TrackNumber(order, n),
                Category::Duration => FilterSpec::Duration(order, n),
                _ => FilterSpec::BitRate(order, n),
            }),
            None => None,
        },
    }
}

/// A filter as values.
pub enum FilterSpec {
    Favorite(bool),
    Title(Seq<char>),
    Year(Order, nat),
    Cd(Order, nat),
    TrackNumber(Order, nat),
    Artist(Seq<char>),
    Album(Seq<char>),
    Genre(Seq<char>),
    BitRate(Order, nat),
    Duration(Order, nat),
}

/// A filter as values.
pub open spec fn filter_spec(f: Filter) -> FilterSpec {
    match f {
        Filter::Favorite(b) => FilterSpec::Favorite(b),
        Filter::Title(s) => FilterSpec::Title(s@),
        Filter::Year(o, n) => FilterSpec::Year(o, n as nat),
        Filter::Cd(o, n) => FilterSpec::Cd(o, n as nat),
        Filter::TrackNumber(o, n) => FilterSpec::TrackNumber(o, n as nat),
        Filter::Artist(s) => FilterSpec::Artist(s@),
        Filter::Album(s) => FilterSpec::Album(s@),
        Filter::Genre(s) => FilterSpec::Genre(s@),
        Filter::BitRate(o, n) => FilterSpec::BitRate(o, n as nat),
        Filter::Duration(o, n) => FilterSpec::Duration(o, n as nat),
    }
}

/// The state of a filter row: its category and the filter it states, if any.
#[derive(Debug)]
pub struct FilterRow {
    pub category: Category,
    pub filter: Option<Filter>,
}

impl FilterRow {
    /// A new row for `category`, stating no filter yet.
    pub fn new(category: Category) -> (r: FilterRow)
        ensures
            r.category == category,
            r.filter is None,
    {
        FilterRow { category, filter: None }
    }

    /// The filter the row states.
    pub fn filter(&self) -> (r: &Option<Filter>)
        ensures
            r == &self.filter,
    {
        &self.filter
    }

    /// Whether the row states a filter.
    pub fn active(&self) -> (r: bool)
        ensures
            r == self.filter is Some,
    {
        self.filter.is_some()
    }

    /// Takes the new parameters of the row: the text of the entry of its category and the
    /// order chosen in its drop-down (read for the number categories only). Returns whether
    /// the entry is to show that it needs a valid number.
    pub fn parameter_changed(&mut self, text: &str, order: Order) -> (invalid: bool)
        ensures
            final(self).category == old(self).category,
            match final(self).filter {
                Some(f) => row_filter(old(self).category, text@, order) == Some(filter_spec(f)),
                None => row_filter(old(self).category, text@, order) is None,
            },
            invalid == (row_filter(old(self).category, text@, order) is None),
    {
        let text_filter = match self.category {
            Category::Title => Some(Filter::Title(String::from_str(text))),
            Category::Artist => Some(Filter::Artist(String::from_str(text))),
            Category::Album => Some(Filter::Album(String::from_str(text))),
            Category::Genre => Some(Filter::Genre(String::from_str(text))),
            _ => None,
        };
        if text_filter.is_some() {
            self.filter = text_filter;
            return false;
        }
        match parse_usize(text) {
            Some(n) => {
                self.filter = Some(match self.category {
                    Category::Year => Filter::Year(order, n),
                    Category::Cd => Filter::Cd(order, n),
                    Category::TrackNumber => Filter::TrackNumber(order, n),
                    Category::Duration => Filter::Duration(order, n),
                    _ => Filter::BitRate(order, n),
                });
                false
            },
            None => {
                self.filter = None;
                true
            },
        }
    }
}

/// The category a filter filters by; none for the favorite filter, which no row makes.
pub open spec fn filter_category(f: FilterSpec) -> Option<Category> {
    match f {
        FilterSpec::Favorite(_) => None,
        FilterSpec::Title(_) => Some(Category::Title),
        FilterSpec::Year(_, _) => Some(Category::Year),
        FilterSpec::Cd(_, _) => Some(Category::Cd),
        FilterSpec::TrackNumber(_, _) => Some(Category::TrackNumber),
        FilterSpec::Artist(_) => Some(Category::Artist),
        FilterSpec::Album(_) => Some(Category::Album),
        FilterSpec::Genre(_) => Some(Category::Genre),
        FilterSpec::BitRate(_, _) => Some(Category::BitRate),
        FilterSpec::Duration(_, _) => Some(Category::Duration),
    }
}

/// The text a text filter compares with.
pub open spec fn filter_text(f: FilterSpec) -> Option<Seq<char>> {
    match f {
        FilterSpec::Title(t) => Some(t),
        FilterSpec::Artist(t) => Some(t),
        FilterSpec::Album(t) => Some(t),
        FilterSpec::Genre(t) => Some(t),
        _ => None,
    }
}

/// The order and the number a number filter compares with.
pub open spec fn filter_number(f: FilterSpec) -> Option<(Order, nat)> {
    match f {
        FilterSpec::Year(o, n) => Some((o, n)),
        FilterSpec::Cd(o, n) => Some((o, n)),
        FilterSpec::TrackNumber(o, n) => Some((o, n)),
        FilterSpec::BitRate(o, n) => Some((o, n)),
        FilterSpec::Duration(o, n) => Some((o, n)),
        _ => None,
    }
}

/// A filter row filters by its own category: a text row always gives a filter of its category
/// holding the text typed; a number row gives a filter of its category, with the order chosen
/// and the number typed, exactly when the text typed is a number.
pub proof fn law_row_filter_keeps_category(c: Category, text: Seq<char>, order: Order)
    ensures
        row_filter(c, text, order) matches Some(f) ==> filter_category(f) == Some(c),
        is_text_category(c) ==> (row_filter(c, text, order) matches Some(f) && filter_text(f) == Some(text)),
        !is_text_category(c) ==> (row_filter(c, text, order) is Some <==> parse_usize_spec(text) is Some),
        !is_text_category(c) ==> (row_filter(c, text, order) matches Some(f) ==> parse_usize_spec(text) matches Some(n)
            && filter_number(f) == Some((order, n))),
{
}

/// Whether the row is a text category, whose entry is taken as it is.
pub open spec fn is_text_category(c: Category) -> bool {
    c == Category::Title || c == Category::Artist || c == Category::Album || c == Category::Genre
}

impl Filter {
    /// A copy of the filter.
    pub fn duplicate(&self) -> (r: Filter)
        ensures
            filter_spec(r) == filter_spec(*self),
    {
        match self {
            Filter::Favorite(b) => Filter::Favorite(*b),
            Filter::Title(s) => Filter::Title(s.clone()),
            Filter::Year(o, n) => Filter::Year(*o, *n),
            Filter::Cd(o, n) => Filter::Cd(*o, *n),
            Filter::TrackNumber(o, n) => Filter::TrackNumber(*o, *n),
            Filter::Artist(s) => Filter::Artist(s.clone()),
            Filter::Album(s) => Filter::Album(s.clone()),
            Filter::Genre(s) => Filter::Genre(s.clone()),
            Filter::BitRate(o, n) => Filter::BitRate(*o, *n),
            Filter::Duration(o, n) => Filter::Duration(*o, *n),
        }
    }
}

/// A message to a filter row.
#[derive(Debug)]
pub enum FilterRowIn {
    /// The entry of the row's category or its order changed: the text entered and the order
    /// chosen.
    ParameterChanged(String, Order),
    /// The remove button was pressed.
    RemoveFilter,
    /// The row is to show the page of a category.
    SetTo(Category),
}

/// What a filter row reports: its filter changed, or the row at this index is to be removed.
#[derive(Debug, Clone, Copy, PartialEq, Eq, Structural)]
pub enum FilterRowOut {
    ParameterChanged,
    RemoveFilter(usize),
}

/// What a filter row does on a message: the page its stack is to show, whether the entry of a
/// number category is to show that it needs a valid number, and what it reports.
#[derive(Debug)]
pub struct FilterRowEffect {
    pub page: Option<&'static str>,
    pub invalid_entry: Option<bool>,
    pub out: Option<FilterRowOut>,
}

/// What a filter row at `index` does on `msg`: `new` is the row after it, `r` its effect.
pub open spec fn row_updated(old: FilterRow, index: usize, msg: FilterRowIn, new: FilterRow, r: FilterRowEffect) -> bool {
    &&& new.category == old.category
    &&& match msg {
        FilterRowIn::RemoveFilter => r.out == Some(FilterRowOut::RemoveFilter(index)) && r.page is None
            && r.invalid_entry is None && new.filter == old.filter,
        FilterRowIn::SetTo(c) => (r.page matches Some(p) && p@ == category_page(c)) && r.out is None
            && r.invalid_entry is None && new.filter == old.filter,
        FilterRowIn::ParameterChanged(text, order) => {
            &&& r.out == Some(FilterRowOut::ParameterChanged)
            &&& r.page is None
            &&& r.invalid_entry == if is_text_category(old.category) {
                None
            } else {
                Some(row_filter(old.category, text@, order) is None)
            }
            &&& match new.filter {
                Some(f) => row_filter(old.category, text@, order) == Some(filter_spec(f)),
                None => row_filter(old.category, text@, order) is None,
            }
        },
    }
}

impl FilterRow {
    /// Handles a message to the row at `index`.
    pub fn update(&mut self, index: usize, msg: FilterRowIn) -> (r: FilterRowEffect)
        ensures
            row_updated(*old(self), index, msg, *final(self), r),
    {
        match msg {
            FilterRowIn::RemoveFilter => FilterRowEffect {
                page: None,
                invalid_entry: None,
                out: Some(FilterRowOut::RemoveFilter(index)),
            },
            FilterRowIn::SetTo(c) => FilterRowEffect { page: Some(c.to_str()), invalid_entry: None, out: None },
            FilterRowIn::ParameterChanged(text, order) => {
                let invalid = self.parameter_changed(text.as_str(), order);
                let text_category = match self.category {
                    Category::Title | Category::Artist | Category::Album | Category::Genre => true,
                    _ => false,
                };
                FilterRowEffect {
                    page: None,
                    invalid_entry: if text_category { None } else { Some(invalid) },
                    out: Some(FilterRowOut::ParameterChanged),
                }
            },
        }
    }
}

/// The filter a row states, as values, when it states one.
pub open spec fn row_states(row: FilterRow) -> bool {
    row.filter is Some
}

/// The filters stated by `rows`, in order, as values.
pub open spec fn stated_filters(rows: Seq<FilterRow>) -> Seq<FilterSpec> {
    rows.filter(|row: FilterRow| row_states(row)).map_values(|row: FilterRow| filter_spec(row.filter->0))
}

/// A message to a filter box.
#[derive(Debug)]
pub enum FilterBoxIn {
    /// Every row is removed.
    ClearFilters,
    /// The favorite switch was set.
    Favorited(bool),
    /// A row for this category is added.
    AddNewFilter(Category),
    /// A row reported something.
    FilterRow(FilterRowOut),
}

/// What a filter box reports: its filters changed.
#[derive(Debug, Clone, Copy, PartialEq, Eq, Structural)]
pub enum FilterBoxOut {
    FiltersChanged,
}

/// A filter box: its rows, and whether its favorite switch is on.
#[derive(Debug)]
pub struct FilterBox {
    pub rows: Vec<FilterRow>,
    pub favorite: bool,
}

impl FilterBox {
    /// A box without rows, its favorite switch off.
    pub fn new() -> (r: FilterBox)
        ensures
            r.rows@.len() == 0,
            !r.favorite,
    {
        FilterBox { rows: Vec::new(), favorite: false }
    }

    /// The filters of the box: those its rows state, in order, then a favorite filter when
    /// its favorite switch is on.
    pub fn get_filters(&self) -> (r: Vec<Filter>)
        ensures
            r@.map_values(|f: Filter| filter_spec(f)) == if self.favorite {
                stated_filters(self.rows@).push(FilterSpec::Favorite(true))
            } else {
                stated_filters(self.rows@)
            },
    {
        let ghost p = |row: FilterRow| row_states(row);
        let ghost m = |row: FilterRow| filter_spec(row.filter->0);
        let ghost v = |f: Filter| filter_spec(f);
        let n = self.rows.len();
        let mut r: Vec<Filter> = Vec::new();
        let mut i: usize = 0;
        while i < n
            invariant
                0 <= i <= n,
                n == self.rows@.len(),
                p == (|row: FilterRow| row_states(row)),
                m == (|row: FilterRow| filter_spec(row.filter->0)),
                v == (|f: Filter| filter_spec(f)),
                r@.map_values(v) == self.rows@.subrange(0, i as int).filter(p).map_values(m),
            decreases n - i,
        {
            let row = &self.rows[i];
            proof {
                let s0 = self.rows@.subrange(0, i as int);
                assert(self.rows@.subrange(0, i + 1) =~= s0.push(*row));
                s0.lemma_filter_push(*row, p);
            }
            match &row.filter {
                Some(f) => {
                    let copy = f.duplicate();
                    let ghost before = r@;
                    r.push(copy);
                    proof {
                        let s0 = self.rows@.subrange(0, i as int);
                        assert(r@.map_values(v) =~= before.map_values(v).push(v(copy)));
                        assert(s0.filter(p).push(*row).map_values(m) =~= s0.filter(p).map_values(m).push(m(*row)));
                    }
                },
                None => {},
            }
            i = i + 1;
        }
        proof {
            assert(self.rows@.subrange(0, n as int) =~= self.rows@);
        }
        if self.favorite {
            let ghost before = r@;
            r.push(Filter::Favorite(true));
            proof {
                assert(r@.map_values(v) =~= before.map_values(v).push(FilterSpec::Favorite(true)));
            }
        }
        r
    }

    /// Handles a message: clears the rows, sets the favorite switch, adds a row for a
    /// category, or removes the row a row asked to remove (nothing is removed for an index
    /// past the rows). Every message changes the filters.
    pub fn update(&mut self, msg: FilterBoxIn) -> (r: FilterBoxOut)
        ensures
            r == FilterBoxOut::FiltersChanged,
            match msg {
                FilterBoxIn::ClearFilters => final(self).rows@.len() == 0 && final(self).favorite == old(self).favorite,
                FilterBoxIn::Favorited(b) => final(self).rows@ == old(self).rows@ && final(self).favorite == b,
                FilterBoxIn::AddNewFilter(c) => final(self).rows@ == old(self).rows@.push(
                    FilterRow { category: c, filter: None },
                ) && final(self).favorite == old(self).favorite,
                FilterBoxIn::FilterRow(FilterRowOut::RemoveFilter(i)) => final(self).favorite == old(self).favorite
                    && final(self).rows@ == if i < old(self).rows@.len() {
                        old(self).rows@.remove(i as int)
                    } else {
                        old(self).rows@
                    },
                FilterBoxIn::FilterRow(FilterRowOut::ParameterChanged) => final(self).rows@ == old(self).rows@
                    && final(self).favorite == old(self).favorite,
            },
    {
        match msg {
            FilterBoxIn::ClearFilters => self.rows.clear(),
            FilterBoxIn::Favorited(b) => self.favorite = b,
            FilterBoxIn::AddNewFilter(c) => self.rows.push(FilterRow::new(c)),
            FilterBoxIn::FilterRow(FilterRowOut::RemoveFilter(i)) => {
                if i < self.rows.len() {
                    self.rows.remove(i);
                }
            },
            FilterBoxIn::FilterRow(FilterRowOut::ParameterChanged) => {},
        }
        FilterBoxOut::FiltersChanged
    }

    /// Hands `msg` to the row at `index`; none when there is no such row.
    pub fn send(&mut self, index: usize, msg: FilterRowIn) -> (r: Option<FilterRowEffect>)
        ensures
            final(self).favorite == old(self).favorite,
            final(self).rows@.len() == old(self).rows@.len(),
            index >= old(self).rows@.len() ==> r is None && final(self).rows@ == old(self).rows@,
            index < old(self).rows@.len() ==> (r matches Some(e) && row_updated(
                old(self).rows@[index as int],
                index,
                msg,
                final(self).rows@[index as int],
                e,
            )) && forall|j: int|
                0 <= j < old(self).rows@.len() && j != index ==> #[trigger] final(self).rows@[j] == old(self).rows@[j],
    {
        if index < self.rows.len() {
            let mut row = self.rows.remove(index);
            let effect = row.update(index, msg);
            self.rows.insert(index, row);
            Some(effect)
        } else {
            None
        }
    }
}

/// Whether any row of a filter panel states a filter.
pub fn active_filters(rows: &Vec<FilterRow>) -> (r: bool)
    ensures
        r == exists|i: int| 0 <= i < rows@.len() && (#[trigger] rows@[i]).filter is Some,
{
    let mut i: usize = 0;
    while i < rows.len()
        invariant
            0 <= i <= rows@.len(),
            forall|j: int| 0 <= j < i ==> (#[trigger] rows@[j]).filter is None,
        decreases rows@.len() - i,
    {
        if rows[i].active() {
            return true;
        }
        i = i + 1;
    }
    false
}

} // verus!
