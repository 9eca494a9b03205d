use vstd::prelude::*;

verus! {

/// One row of a care table: the label as written on the page and its content.
#[derive(Debug)]
pub struct Attribute {
    pub parameter: String,
    pub value: String,
}

/// The nine care slots of a record; each holds at most one row.
#[derive(Debug)]
pub struct Attributes {
    pub temperature: Option<Attribute>,
    pub humidity: Option<Attribute>,
    pub illumination: Option<Attribute>,
    pub watering: Option<Attribute>,
    pub soil: Option<Attribute>,
    pub fertilizer: Option<Attribute>,
    pub transplant: Option<Attribute>,
    pub propagation: Option<Attribute>,
    pub features: Option<Attribute>,
}

/// A fully extracted catalog entry.
#[derive(Debug)]
pub struct Houseplant {
    pub name: String,
    /// File name of the downloaded image, relative to the image directory.
    pub image: String,
    pub attributes: Attributes,
}

/// Names one of the nine slots of `Attributes`.
#[derive(Debug, Clone, Copy, PartialEq, Eq, Structural)]
pub enum Slot {
    Temperature,
    Humidity,
    Illumination,
    Watering,
    Soil,
    Fertilizer,
    Transplant,
    Propagation,
    Features,
}

/// The record with every slot empty.
pub open spec fn empty_attributes() -> Attributes {
    Attributes {
        temperature: None,
        humidity: None,
        illumination: None,
        watering: None,
        soil: None,
        fertilizer: None,
        transplant: None,
        propagation: None,
        features: None,
    }
}

/// What slot `s` of `a` holds.
pub open spec fn slot_value(a: Attributes, s: Slot) -> Option<Attribute> {
    match s {
        Slot::Temperature => a.temperature,
        Slot::Humidity => a.humidity,
        Slot::Illumination => a.illumination,
        Slot::Watering => a.watering,
        Slot::Soil => a.soil,
        Slot::Fertilizer => a.fertilizer,
        Slot::Transplant => a.transplant,
        Slot::Propagation => a.propagation,
        Slot::Features => a.features,
    }
}

/// `a` with slot `s` set to `v` and every other slot unchanged.
pub open spec fn put_slot(a: Attributes, s: Slot, v: Attribute) -> Attributes {
    match s {
        Slot::Temperature => Attributes { temperature: Some(v), ..a },
        Slot::Humidity => Attributes { humidity: Some(v), ..a },
        Slot::Illumination => Attributes { illumination: Some(v), ..a },
        Slot::Watering => Attributes { watering: Some(v), ..a },
        Slot::Soil => Attributes { soil: Some(v), ..a },
        Slot::Fertilizer => Attributes { fertilizer: Some(v), ..a },
        Slot::Transplant => Attributes { transplant: Some(v), ..a },
        Slot::Propagation => Attributes { propagation: Some(v), ..a },
        Slot::Features => Attributes { features: Some(v), ..a },
    }
}

impl Attributes {
    /// A record with every slot empty.
    pub fn empty() -> (r: Attributes)
        ensures
            r == empty_attributes(),
    {
        Attributes {
            temperature: None,
            humidity: None,
            illumination: None,
            watering: None,
            soil: None,
            fertilizer: None,
            transplant: None,
            propagation: None,
            features: None,
        }
    }

    /// Stores `v` in slot `s`, replacing what it held.
    pub fn set(&mut self, s: Slot, v: Attribute)
        ensures
            *final(self) == put_slot(*old(self), s, v),
    {
        match s {
            Slot::Temperature => self.temperature = Some(v),
            Slot::Humidity => self.humidity = Some(v),
            Slot::Illumination => self.illumination = Some(v),
            Slot::Watering => self.watering = Some(v),
            Slot::Soil => self.soil = Some(v),
            Slot::Fertilizer => self.fertilizer = Some(v),
            Slot::Transplant => self.transplant = Some(v),
            Slot::Propagation => self.propagation = Some(v),
            Slot::Features => self.features = Some(v),
        }
    }

    /// The content of slot `s`, if any row landed there.
    pub fn value_of(&self, s: Slot) -> (r: Option<&str>)
        ensures
            match slot_value(*self, s) {
                Some(a) => r is Some && r->Some_0@ == a.value@,
                None => r is None,
            },
    {
        let slot = match s {
            Slot::Temperature => &self.temperature,
            Slot::Humidity => &self.humidity,
            Slot::Illumination => &self.illumination,
            Slot::Watering => &self.watering,
            Slot::Soil => &self.soil,
            Slot::Fertilizer => &self.fertilizer,
            Slot::Transplant => &self.transplant,
            Slot::Propagation => &self.propagation,
            Slot::Features => &self.features,
        };
        match slot {
            Some(a) => Some(a.value.as_str()),
            None => None,
        }
    }
}

impl Default for Attributes {
    fn default() -> (r: Attributes)
        ensures
            r == empty_attributes(),
    {
        Attributes::empty()
    }
}

/// Why an image could not be archived.
#[derive(Debug, Clone, Copy, PartialEq, Eq, Structural)]
pub enum DownloadError {
    /// The request for the image failed.
    Fetch,
    /// The response body could not be read.
    Body,
    /// The bytes could not be written to the image directory.
    Write,
}

/// Why one detail page produced no record.
#[derive(Debug, Clone, Copy, PartialEq, Eq, Structural)]
pub enum ExtractionError {
    /// The page itself could not be fetched.
    Fetch,
    /// No title element.
    TitleMissing,
    /// No image element, or one without an image address.
    ImageMissing,
    /// The image could not be downloaded or stored, for the reason given.
    ImageDownload(DownloadError),
    /// No table cell mentions watering.
    TableMissing,
    /// A table row has fewer than two cells.
    MalformedRow,
}

} // verus!
