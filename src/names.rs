use vstd::prelude::*;

verus! {

/// Day of the week of the day with CJDN `cjdn`: 0 for Sunday to 6 for Saturday.
pub open spec fn weekday_of(cjdn: int) -> int {
    (cjdn + 1) % 7
}

/// English name of the weekday `w` (0 for Sunday).
pub open spec fn weekday_name_en(w: int) -> Seq<char> {
    if w == 0 {
        "Sunday"@
    } else if w == 1 {
        "Monday"@
    } else if w == 2 {
        "Tuesday"@
    } else if w == 3 {
        "Wednesday"@
    } else if w == 4 {
        "Thursday"@
    } else if w == 5 {
        "Friday"@
    } else {
        "Saturday"@
    }
}

/// Arabic name of the weekday `w` (0 for Sunday).
pub open spec fn weekday_name_ar(w: int) -> Seq<char> {
    if w == 0 {
        "الاحد"@
    } else if w == 1 {
        "الاثنين"@
    } else if w == 2 {
        "الثلاثاء"@
    } else if w == 3 {
        "الاربعاء"@
    } else if w == 4 {
        "الخميس"@
    } else if w == 5 {
        "الجمعة"@
    } else {
        "السبت"@
    }
}

/// English name of the Gregorian month `m` (1 for January).
pub open spec fn month_name_en(m: int) -> Seq<char> {
    if m == 1 {
        "January"@
    } else if m == 2 {
        "February"@
    } else if m == 3 {
        "March"@
    } else if m == 4 {
        "April"@
    } else if m == 5 {
        "May"@
    } else if m == 6 {
        "June"@
    } else if m == 7 {
        "July"@
    } else if m == 8 {
        "August"@
    } else if m == 9 {
        "September"@
    } else if m == 10 {
        "October"@
    } else if m == 11 {
        "November"@
    } else {
        "December"@
    }
}

/// Arabic name of the Hijri month `m` (1 for Muharram).
pub open spec fn hijri_month_name(m: int) -> Seq<char> {
    if m == 1 {
        "محرم"@
    } else if m == 2 {
        "صفر"@
    } else if m == 3 {
        "ربيع الأول"@
    } else if m == 4 {
        "ربيع الثاني"@
    } else if m == 5 {
        "جمادي الأولى"@
    } else if m == 6 {
        "جمادي الآخرة"@
    } else if m == 7 {
        "رجب"@
    } else if m == 8 {
        "شعبان"@
    } else if m == 9 {
        "رمضان"@
    } else if m == 10 {
        "شوال"@
    } else if m == 11 {
        "ذو القعدة"@
    } else {
        "ذو الحجة"@
    }
}

/// Arabic name of the weekday `w` (0 for Sunday).
pub fn arabic_weekday_name(w: i64) -> (r: String)
    requires
        0 <= w < 7,
    ensures
        r@ == weekday_name_ar(w as int),
{
    if w == 0 {
        "الاحد".to_owned()
    } else if w == 1 {
        "الاثنين".to_owned()
    } else if w == 2 {
        "الثلاثاء".to_owned()
    } else if w == 3 {
        "الاربعاء".to_owned()
    } else if w == 4 {
        "الخميس".to_owned()
    } else if w == 5 {
        "الجمعة".to_owned()
    } else {
        "السبت".to_owned()
    }
}

/// Arabic name of the Hijri month `m` (1 for Muharram).
pub fn arabic_month_name(m: usize) -> (r: String)
    requires
        1 <= m <= 12,
    ensures
        r@ == hijri_month_name(m as int),
{
    if m == 1 {
        "محرم".to_owned()
    } else if m == 2 {
        "صفر".to_owned()
    } else if m == 3 {
        "ربيع الأول".to_owned()
    } else if m == 4 {
        "ربيع الثاني".to_owned()
    } else if m == 5 {
        "جمادي الأولى".to_owned()
    } else if m == 6 {
        "جمادي الآخرة".to_owned()
    } else if m == 7 {
        "رجب".to_owned()
    } else if m == 8 {
        "شعبان".to_owned()
    } else if m == 9 {
        "رمضان".to_owned()
    } else if m == 10 {
        "شوال".to_owned()
    } else if m == 11 {
        "ذو القعدة".to_owned()
    } else {
        "ذو الحجة".to_owned()
    }
}

} // verus!
