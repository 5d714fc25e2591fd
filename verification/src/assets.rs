//! The data model of a batch: assets, their kinds, and per-asset outcomes.

use vstd::prelude::*;

use crate::errors::ErrorView;
use crate::errors::UploadError;

verus! {

/// The kind of data an asset carries. Metadata travels as inline content;
/// images and animations are read from a file path.
#[derive(Clone, Copy, PartialEq, Eq, Structural, Debug)]
pub enum DataType {
    Image,
    Metadata,
    Animation,
}

/// One uploadable unit: a logical identifier (unique within a batch), a file
/// name, the content source (a filesystem path for images and animations,
/// the inline document for metadata), and the data kind.
pub struct AssetInfo {
    pub asset_id: String,
    pub name: String,
    pub content: String,
    pub data_type: DataType,
}

/// Mathematical image of an asset: its strings as character sequences.
pub struct AssetView {
    pub asset_id: Seq<char>,
    pub name: Seq<char>,
    pub content: Seq<char>,
    pub data_type: DataType,
}

impl View for AssetInfo {
    type V = AssetView;

    open spec fn view(&self) -> AssetView {
        AssetView {
            asset_id: self.asset_id@,
            name: self.name@,
            content: self.content@,
            data_type: self.data_type,
        }
    }
}

/// The views of a sequence of assets, position by position.
pub open spec fn views_of_assets(s: Seq<AssetInfo>) -> Seq<AssetView> {
    s.map_values(|a: AssetInfo| a@)
}

/// The terminal result of one asset's upload: the asset's identifier paired
/// with either its resolved public URL or the permanent error.
pub struct UploadOutcome {
    pub asset_id: String,
    pub result: Result<String, UploadError>,
}

/// Mathematical image of an outcome.
pub struct OutcomeView {
    pub asset_id: Seq<char>,
    pub result: Result<Seq<char>, ErrorView>,
}

impl View for UploadOutcome {
    type V = OutcomeView;

    open spec fn view(&self) -> OutcomeView {
        OutcomeView {
            asset_id: self.asset_id@,
            result: match &self.result {
                Ok(url) => Ok(url@),
                Err(e) => Err(e@),
            },
        }
    }
}

/// The views of a sequence of outcomes, position by position.
pub open spec fn views_of_outcomes(s: Seq<UploadOutcome>) -> Seq<OutcomeView> {
    s.map_values(|o: UploadOutcome| o@)
}

/// The identifiers of a sequence of assets, in catalog order.
pub open spec fn asset_ids(assets: Seq<AssetView>) -> Seq<Seq<char>> {
    assets.map_values(|a: AssetView| a.asset_id)
}

/// Every pair of distinct positions holds distinct identifiers.
pub open spec fn ids_unique(assets: Seq<AssetView>) -> bool {
    forall|i: int, j: int|
        0 <= i < j < assets.len() ==> assets[i].asset_id != assets[j].asset_id
}

/// An ordered batch of assets whose identifiers are unique: duplicate
/// identifiers are a configuration error, rejected at construction.
pub struct Batch {
    assets: Vec<AssetInfo>,
}

impl View for Batch {
    type V = Seq<AssetView>;

    closed spec fn view(&self) -> Seq<AssetView> {
        views_of_assets(self.assets@)
    }
}

impl Batch {
    /// The batch invariant: identifiers are pairwise distinct.
    pub open spec fn wf(&self) -> bool {
        ids_unique(self@)
    }

    /// Builds a batch from a catalog of assets, rejecting duplicate
    /// identifiers with a configuration error. Succeeds exactly when the
    /// identifiers are pairwise distinct.
    pub fn new(assets: Vec<AssetInfo>) -> (r: Result<Batch, UploadError>)
        ensures
            r is Ok <==> ids_unique(views_of_assets(assets@)),
            r is Ok ==> r->Ok_0@ == views_of_assets(assets@) && r->Ok_0.wf(),
            r is Err ==> r->Err_0 is Config,
    {
        let n = assets.len();
        let mut i: usize = 0;
        while i < n
            invariant
                n == assets.len(),
                i <= n,
                forall|p: int, q: int|
                    0 <= p < q < assets@.len() && p < i ==> assets@[p].asset_id@
                        != assets@[q].asset_id@,
            decreases n - i,
        {
            let mut j: usize = i + 1;
            while j < n
                invariant
                    n == assets.len(),
                    i < j <= n,
                    forall|q: int| i < q < j ==> assets@[i as int].asset_id@ != assets@[q].asset_id@,
                decreases n - j,
            {
                if assets[i].asset_id == assets[j].asset_id {
                    proof {
                        let vs = views_of_assets(assets@);
                        assert(vs[i as int].asset_id == assets@[i as int].asset_id@);
                        assert(vs[j as int].asset_id == assets@[j as int].asset_id@);
                        assert(!ids_unique(vs));
                    }
                    return Err(
                        UploadError::Config(
                            String::from_str("Duplicate asset identifier in batch."),
                        ),
                    );
                }
                j = j + 1;
            }
            i = i + 1;
        }
        assert(ids_unique(views_of_assets(assets@)));
        Ok(Batch { assets })
    }

    /// The number of assets in the batch.
    pub fn len(&self) -> (n: usize)
        ensures
            n == self@.len(),
    {
        self.assets.len()
    }

    /// The asset at position `i` in catalog order.
    pub fn get(&self, i: usize) -> (a: &AssetInfo)
        requires
            i < self@.len(),
        ensures
            a@ == self@[i as int],
    {
        &self.assets[i]
    }
}

} // verus!
