//! Calendar dates as the agenda stores them: plain year, month and day,
//! with the Gregorian calendar rules as the validity invariant.

use vstd::prelude::*;

verus! {

/// A calendar date, kept as plain fields.
#[derive(Clone, Copy, Debug, PartialEq, Eq, Structural)]
pub struct Data {
    pub ano: u16,
    pub mes: u8,
    pub dia: u8,
}

/// Whether `ano` is a leap year of the Gregorian calendar.
pub open spec fn spec_bissexto(ano: u16) -> bool {
    ano % 4 == 0 && (ano % 100 != 0 || ano % 400 == 0)
}

/// Leap-year test.
pub fn bissexto(ano: u16) -> (r: bool)
    ensures
        r == spec_bissexto(ano),
{
    ano % 4 == 0 && (ano % 100 != 0 || ano % 400 == 0)
}

/// How many days the month `mes` of year `ano` has.
pub open spec fn spec_dias_no_mes(ano: u16, mes: u8) -> u8 {
    if mes == 2 {
        if spec_bissexto(ano) {
            29
        } else {
            28
        }
    } else if mes == 4 || mes == 6 || mes == 9 || mes == 11 {
        30
    } else {
        31
    }
}

/// Days in a month.
pub fn dias_no_mes(ano: u16, mes: u8) -> (r: u8)
    ensures
        r == spec_dias_no_mes(ano, mes),
{
    if mes == 2 {
        if bissexto(ano) {
            29
        } else {
            28
        }
    } else if mes == 4 || mes == 6 || mes == 9 || mes == 11 {
        30
    } else {
        31
    }
}

impl Data {
    /// A real calendar day: the month exists and the day fits it.
    pub open spec fn valida(self) -> bool {
        &&& 1 <= self.mes <= 12
        &&& 1 <= self.dia <= spec_dias_no_mes(self.ano, self.mes)
    }

    /// Builds the date `ano-mes-dia` when it names a real calendar day,
    /// and refuses otherwise.
    pub fn nova(ano: u16, mes: u8, dia: u8) -> (r: Option<Data>)
        ensures
            match r {
                Some(d) => d == (Data { ano, mes, dia }) && d.valida(),
                None => !(Data { ano, mes, dia }).valida(),
            },
    {
        if 1 <= mes && mes <= 12 && 1 <= dia && dia <= dias_no_mes(ano, mes) {
            Some(Data { ano, mes, dia })
        } else {
            None
        }
    }
}

} // verus!
