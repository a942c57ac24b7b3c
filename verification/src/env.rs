//! The names that a run against the live service is set up with: the keys
//! of the account and the buckets that it uses.

use vstd::prelude::*;
use vstd::string::*;

verus! {

/// The settings of a run against the live service.
#[derive(Debug)]
pub struct Env {
    access_key: String,
    secret_key: String,
    public_bucket: String,
    private_bucket: String,
    huadong_bucket: String,
    huabei_bucket: String,
    huanan_bucket: String,
    upload_bucket: String,
    dual_regions_bucket_huadong: String,
    dual_regions_bucket_huabei: String,
}

/// The mathematical value of an [`Env`].
pub struct EnvView {
    pub access_key: Seq<char>,
    pub secret_key: Seq<char>,
    pub public_bucket: Seq<char>,
    pub private_bucket: Seq<char>,
    pub huadong_bucket: Seq<char>,
    pub huabei_bucket: Seq<char>,
    pub huanan_bucket: Seq<char>,
    pub upload_bucket: Seq<char>,
    pub dual_regions_bucket_huadong: Seq<char>,
    pub dual_regions_bucket_huabei: Seq<char>,
}

impl DeepView for Env {
    type V = EnvView;

    closed spec fn deep_view(&self) -> EnvView {
        EnvView {
            access_key: self.access_key@,
            secret_key: self.secret_key@,
            public_bucket: self.public_bucket@,
            private_bucket: self.private_bucket@,
            huadong_bucket: self.huadong_bucket@,
            huabei_bucket: self.huabei_bucket@,
            huanan_bucket: self.huanan_bucket@,
            upload_bucket: self.upload_bucket@,
            dual_regions_bucket_huadong: self.dual_regions_bucket_huadong@,
            dual_regions_bucket_huabei: self.dual_regions_bucket_huabei@,
        }
    }
}

/// The names of the settings, in the order in which [`Env::from_values`]
/// takes their values.
pub open spec fn setting_names() -> Seq<Seq<char>> {
    seq![
        "access_key"@,
        "secret_key"@,
        "public_bucket"@,
        "private_bucket"@,
        "huadong_bucket"@,
        "huabei_bucket"@,
        "huanan_bucket"@,
        "upload_bucket"@,
        "dual_regions_bucket_huadong"@,
        "dual_regions_bucket_huabei"@,
    ]
}

impl Env {
    /// The settings with the given values, which stand in the order of
    /// [`setting_names`]. `None` unless there are exactly ten.
    pub fn from_values(values: &Vec<String>) -> (r: Option<Self>)
        ensures
            match r {
                Some(env) => values.len() == 10 && env.deep_view() == (EnvView {
                    access_key: values[0]@,
                    secret_key: values[1]@,
                    public_bucket: values[2]@,
                    private_bucket: values[3]@,
                    huadong_bucket: values[4]@,
                    huabei_bucket: values[5]@,
                    huanan_bucket: values[6]@,
                    upload_bucket: values[7]@,
                    dual_regions_bucket_huadong: values[8]@,
                    dual_regions_bucket_huabei: values[9]@,
                }),
                None => values.len() != 10,
            },
    {
        if values.len() != 10 {
            return None;
        }
        Some(
            Env {
                access_key: values[0].clone(),
                secret_key: values[1].clone(),
                public_bucket: values[2].clone(),
                private_bucket: values[3].clone(),
                huadong_bucket: values[4].clone(),
                huabei_bucket: values[5].clone(),
                huanan_bucket: values[6].clone(),
                upload_bucket: values[7].clone(),
                dual_regions_bucket_huadong: values[8].clone(),
                dual_regions_bucket_huabei: values[9].clone(),
            },
        )
    }

    /// The access key of the account.
    pub fn access_key(&self) -> (r: &str)
        ensures
            r@ == self.deep_view().access_key,
    {
        self.access_key.as_str()
    }

    /// The secret key of the account.
    pub fn secret_key(&self) -> (r: &str)
        ensures
            r@ == self.deep_view().secret_key,
    {
        self.secret_key.as_str()
    }

    /// The bucket that anyone may read.
    pub fn public_bucket(&self) -> (r: &str)
        ensures
            r@ == self.deep_view().public_bucket,
    {
        self.public_bucket.as_str()
    }

    /// The bucket that only the account may read.
    pub fn private_bucket(&self) -> (r: &str)
        ensures
            r@ == self.deep_view().private_bucket,
    {
        self.private_bucket.as_str()
    }

    /// The bucket in East China.
    pub fn huadong_bucket(&self) -> (r: &str)
        ensures
            r@ == self.deep_view().huadong_bucket,
    {
        self.huadong_bucket.as_str()
    }

    /// The bucket in North China.
    pub fn huabei_bucket(&self) -> (r: &str)
        ensures
            r@ == self.deep_view().huabei_bucket,
    {
        self.huabei_bucket.as_str()
    }

    /// The bucket in South China.
    pub fn huanan_bucket(&self) -> (r: &str)
        ensures
            r@ == self.deep_view().huanan_bucket,
    {
        self.huanan_bucket.as_str()
    }

    /// The bucket that uploads go to.
    pub fn upload_bucket(&self) -> (r: &str)
        ensures
            r@ == self.deep_view().upload_bucket,
    {
        self.upload_bucket.as_str()
    }

    /// The bucket in East China that has a backup region.
    pub fn dual_regions_bucket_huadong(&self) -> (r: &str)
        ensures
            r@ == self.deep_view().dual_regions_bucket_huadong,
    {
        self.dual_regions_bucket_huadong.as_str()
    }

    /// The bucket in North China that has a backup region.
    pub fn dual_regions_bucket_huabei(&self) -> (r: &str)
        ensures
            r@ == self.deep_view().dual_regions_bucket_huabei,
    {
        self.dual_regions_bucket_huabei.as_str()
    }
}

} // verus!
